//! What `log`, `sync` and the client commands of `serve` print, and which
//! downloaded secrets the default picker opens.

use vstd::prelude::*;
use crate::models::{DbDownload, DbOperation, DbSecret};
use crate::refs::spec_picker_label;
use crate::text::{chars_of, decimal, push_decimal, push_str, str_eq, string_from};
use crate::textops::string_views;

verus! {

/// `s` followed by spaces up to `width` characters (what `{:width}` prints).
pub open spec fn pad_right(s: Seq<char>, width: nat) -> Seq<char> {
    if s.len() >= width {
        s
    } else {
        s + Seq::new((width - s.len()) as nat, |_i: int| ' ')
    }
}

fn push_padded(v: &mut Vec<char>, s: &str, width: usize)
    ensures
        final(v)@ == old(v)@ + pad_right(s@, width as nat),
{
    let n = chars_of(s).len();
    let ghost start = v@;
    push_str(v, s);
    let mut k: usize = n;
    while k < width
        invariant
            n == s@.len(),
            n <= k,
            k <= width || k == n,
            v@ == start + s@ + Seq::new((k - n) as nat, |_i: int| ' '),
        decreases width - k,
    {
        let ghost before = v@;
        v.push(' ');
        assert(v@ =~= start + s@ + Seq::new((k + 1 - n) as nat, |_i: int| ' '));
        k = k + 1;
    }
    assert(v@ =~= start + pad_right(s@, width as nat));
}

// ---------------------------------------------------------------------------
// The operation log
// ---------------------------------------------------------------------------

/// The line of one logged operation, `age` being how long ago it happened.
pub open spec fn spec_operation_line(age: Seq<char>, op: DbOperation) -> Seq<char> {
    "  "@ + age + " | "@ + pad_right(op.operation_type@, 8) + " | "@ + pad_right(op.provider_id@, 12) + " | "@
        + op.secret_name@ + " "@ + match op.details {
        Some(d) => d@,
        None => Seq::empty(),
    }
}

/// The log as `log` prints it, each operation with its age.
pub open spec fn spec_operation_log(entries: Seq<(Seq<char>, DbOperation)>) -> Seq<Seq<char>> {
    if entries.len() == 0 {
        seq!["No operations recorded yet."@]
    } else {
        seq!["Operation log:"@] + entries.map_values(|e: (Seq<char>, DbOperation)| spec_operation_line(e.0, e.1))
    }
}

/// The ages of the entries, as views.
pub open spec fn entry_views(entries: Seq<(String, DbOperation)>) -> Seq<(Seq<char>, DbOperation)> {
    entries.map_values(|e: (String, DbOperation)| (e.0@, e.1))
}

/// The line of one logged operation.
pub fn operation_line(age: &str, op: &DbOperation) -> (r: String)
    ensures
        r@ == spec_operation_line(age@, *op),
{
    let mut v = chars_of("  ");
    push_str(&mut v, age);
    push_str(&mut v, " | ");
    push_padded(&mut v, op.operation_type.as_str(), 8);
    push_str(&mut v, " | ");
    push_padded(&mut v, op.provider_id.as_str(), 12);
    push_str(&mut v, " | ");
    push_str(&mut v, op.secret_name.as_str());
    push_str(&mut v, " ");
    match &op.details {
        Some(d) => push_str(&mut v, d.as_str()),
        None => {},
    }
    assert(v@ =~= spec_operation_line(age@, *op));
    string_from(v.as_slice())
}

/// What `log` prints for these operations, each paired with its age.
pub fn operation_log(entries: &Vec<(String, DbOperation)>) -> (r: Vec<String>)
    ensures
        string_views(r@) == spec_operation_log(entry_views(entries@)),
{
    let mut out: Vec<String> = Vec::new();
    if entries.len() == 0 {
        out.push(string_from(chars_of("No operations recorded yet.").as_slice()));
        assert(string_views(out@) =~= spec_operation_log(entry_views(entries@)));
        return out;
    }
    out.push(string_from(chars_of("Operation log:").as_slice()));
    let ghost lines = entry_views(entries@).map_values(
        |e: (Seq<char>, DbOperation)| spec_operation_line(e.0, e.1),
    );
    let mut i: usize = 0;
    while i < entries.len()
        invariant
            i <= entries@.len(),
            lines.len() == entries@.len(),
            lines == entry_views(entries@).map_values(
                |e: (Seq<char>, DbOperation)| spec_operation_line(e.0, e.1),
            ),
            string_views(out@) == seq!["Operation log:"@] + lines.subrange(0, i as int),
        decreases entries@.len() - i,
    {
        let line = operation_line(entries[i].0.as_str(), &entries[i].1);
        let ghost before = string_views(out@);
        out.push(line);
        assert(string_views(out@) =~= before.push(line@));
        assert(lines.subrange(0, i + 1) =~= lines.subrange(0, i as int).push(lines[i as int]));
        i = i + 1;
    }
    assert(lines.subrange(0, lines.len() as int) =~= lines);
    out
}

// ---------------------------------------------------------------------------
// sync
// ---------------------------------------------------------------------------

/// The line `sync` prints for a provider: how many secrets it listed, or why it
/// failed (that line goes to standard error).
pub open spec fn spec_sync_line(provider_id: Seq<char>, kind: Seq<char>, outcome: Result<nat, Seq<char>>) -> (
    bool,
    Seq<char>,
) {
    let head = "  "@ + provider_id + " ["@ + kind + "]: "@;
    match outcome {
        Ok(n) => (false, head + decimal(n) + " secrets"@),
        Err(e) => (true, head + "Error - "@ + e),
    }
}

/// The line `sync` prints for a provider, with whether it goes to standard error.
pub fn sync_line(provider_id: &str, kind: &str, outcome: &Result<u64, String>) -> (r: (bool, String))
    ensures
        (r.0, r.1@) == spec_sync_line(provider_id@, kind@, match outcome {
            Ok(n) => Ok(*n as nat),
            Err(e) => Err(e@),
        }),
{
    let mut v = chars_of("  ");
    push_str(&mut v, provider_id);
    push_str(&mut v, " [");
    push_str(&mut v, kind);
    push_str(&mut v, "]: ");
    match outcome {
        Ok(n) => {
            push_decimal(&mut v, *n);
            push_str(&mut v, " secrets");
            assert(v@ =~= spec_sync_line(provider_id@, kind@, Ok(*n as nat)).1);
            (false, string_from(v.as_slice()))
        },
        Err(e) => {
            push_str(&mut v, "Error - ");
            push_str(&mut v, e.as_str());
            assert(v@ =~= spec_sync_line(provider_id@, kind@, Err(e@)).1);
            (true, string_from(v.as_slice()))
        },
    }
}

// ---------------------------------------------------------------------------
// Enrolled clients
// ---------------------------------------------------------------------------

/// The first sixteen bytes of a certificate fingerprint (all of it when shorter).
pub open spec fn fingerprint_head(f: Seq<char>) -> Seq<char> {
    if vstd::utf8::encode_utf8(f).len() <= 16 {
        f
    } else {
        vstd::utf8::decode_utf8(vstd::utf8::encode_utf8(f).subrange(0, 16))
    }
}

/// The fingerprint can be cut after sixteen bytes.
pub open spec fn cuttable_fingerprint(f: Seq<char>) -> bool {
    vstd::utf8::encode_utf8(f).len() <= 16 || vstd::utf8::is_char_boundary(vstd::utf8::encode_utf8(f), 16)
}

/// The two lines of an enrolled client.
pub open spec fn spec_client_lines(name: Seq<char>, head: Seq<char>, revoked: bool) -> Seq<Seq<char>> {
    seq![
        "  "@ + name + if revoked {
            " (REVOKED)"@
        } else {
            Seq::empty()
        },
        "    fingerprint: "@ + head + "..."@,
    ]
}

/// The lines of the enrolled clients, in order.
pub open spec fn spec_client_entries(clients: Seq<(String, String, bool)>) -> Seq<Seq<char>>
    decreases clients.len(),
{
    if clients.len() == 0 {
        Seq::empty()
    } else {
        let c = clients.last();
        spec_client_entries(clients.drop_last()) + spec_client_lines(c.0@, fingerprint_head(c.1@), c.2)
    }
}

/// What the client list prints for `(name, fingerprint, revoked)` entries.
pub open spec fn spec_client_listing(clients: Seq<(String, String, bool)>) -> Seq<Seq<char>> {
    if clients.len() == 0 {
        seq!["No enrolled clients."@]
    } else {
        seq!["Enrolled clients:\n"@] + spec_client_entries(clients)
    }
}

fn fingerprint_text(f: &str) -> (r: Vec<char>)
    requires
        cuttable_fingerprint(f@),
    ensures
        r@ == fingerprint_head(f@),
{
    if f.as_bytes().len() <= 16 {
        chars_of(f)
    } else {
        let (head, _) = f.split_at(16);
        proof {
            vstd::utf8::encode_utf8_decode_utf8(head@);
            assert(vstd::utf8::encode_utf8(head@) =~= vstd::utf8::encode_utf8(f@).subrange(0, 16));
        }
        chars_of(head)
    }
}

/// What the client list prints.
pub fn client_listing(clients: &Vec<(String, String, bool)>) -> (r: Vec<String>)
    requires
        forall|i: int| 0 <= i < clients@.len() ==> cuttable_fingerprint((#[trigger] clients@[i]).1@),
    ensures
        string_views(r@) == spec_client_listing(clients@),
{
    let mut out: Vec<String> = Vec::new();
    if clients.len() == 0 {
        out.push(string_from(chars_of("No enrolled clients.").as_slice()));
        assert(string_views(out@) =~= spec_client_listing(clients@));
        return out;
    }
    out.push(string_from(chars_of("Enrolled clients:\n").as_slice()));
    let mut i: usize = 0;
    while i < clients.len()
        invariant
            i <= clients@.len(),
            forall|j: int| 0 <= j < clients@.len() ==> cuttable_fingerprint((#[trigger] clients@[j]).1@),
            string_views(out@) == seq!["Enrolled clients:\n"@] + spec_client_entries(clients@.subrange(0, i as int)),
        decreases clients@.len() - i,
    {
        proof {
            assert(clients@.subrange(0, i + 1).drop_last() =~= clients@.subrange(0, i as int));
        }
        let c = &clients[i];
        let mut first = chars_of("  ");
        push_str(&mut first, c.0.as_str());
        if c.2 {
            push_str(&mut first, " (REVOKED)");
        }
        let mut second = chars_of("    fingerprint: ");
        let head = fingerprint_text(c.1.as_str());
        let mut k: usize = 0;
        while k < head.len()
            invariant
                k <= head@.len(),
                second@ == "    fingerprint: "@ + head@.subrange(0, k as int),
            decreases head@.len() - k,
        {
            second.push(head[k]);
            assert(head@.subrange(0, k + 1) =~= head@.subrange(0, k as int).push(head@[k as int]));
            k = k + 1;
        }
        assert(head@.subrange(0, head@.len() as int) =~= head@);
        push_str(&mut second, "...");
        let ghost before = string_views(out@);
        let ghost l1 = first@;
        let ghost l2 = second@;
        out.push(string_from(first.as_slice()));
        out.push(string_from(second.as_slice()));
        assert(string_views(out@) =~= before + seq![l1, l2]);
        assert(seq![l1, l2] =~= spec_client_lines(c.0@, fingerprint_head(c.1@), c.2));
        i = i + 1;
    }
    assert(clients@.subrange(0, clients@.len() as int) =~= clients@);
    out
}

/// What revoking a client reports.
pub fn revoke_message(name: &str, revoked: bool) -> (r: String)
    ensures
        r@ == "Client '"@ + name@ + if revoked {
            "' has been revoked."@
        } else {
            "' not found."@
        },
{
    let mut v = chars_of("Client '");
    push_str(&mut v, name);
    if revoked {
        push_str(&mut v, "' has been revoked.");
    } else {
        push_str(&mut v, "' not found.");
    }
    string_from(v.as_slice())
}

// ---------------------------------------------------------------------------
// The default picker
// ---------------------------------------------------------------------------

/// The picker line of a downloaded secret.
pub open spec fn label_of(item: (DbSecret, DbDownload)) -> Seq<char> {
    spec_picker_label(item.0.provider_id@, item.0.display_name@)
}

/// The first position at or after `from` whose picker line is `label`.
pub open spec fn first_labelled(items: Seq<(DbSecret, DbDownload)>, label: Seq<char>, from: int) -> Option<int>
    decreases items.len() - from,
{
    if from < 0 || from >= items.len() {
        None
    } else if label_of(items[from]) == label {
        Some(from)
    } else {
        first_labelled(items, label, from + 1)
    }
}

/// The positions the picked lines name, in the order picked; a line that names
/// no downloaded secret is passed over.
pub open spec fn picked_positions(items: Seq<(DbSecret, DbDownload)>, picked: Seq<Seq<char>>) -> Seq<int>
    decreases picked.len(),
{
    if picked.len() == 0 {
        Seq::empty()
    } else {
        let prev = picked_positions(items, picked.drop_last());
        match first_labelled(items, picked.last(), 0) {
            Some(j) => prev.push(j),
            None => prev,
        }
    }
}

/// Positions as integers.
pub open spec fn positions(v: Seq<usize>) -> Seq<int> {
    v.map_values(|x: usize| x as int)
}

fn find_labelled(items: &Vec<(DbSecret, DbDownload)>, label: &str) -> (r: Option<usize>)
    ensures
        match r {
            Some(j) => first_labelled(items@, label@, 0) == Some(j as int),
            None => first_labelled(items@, label@, 0) is None,
        },
{
    let mut j: usize = 0;
    while j < items.len()
        invariant
            j <= items@.len(),
            first_labelled(items@, label@, 0) == first_labelled(items@, label@, j as int),
        decreases items@.len() - j,
    {
        let l = crate::refs::picker_label(items[j].0.provider_id.as_str(), items[j].0.display_name.as_str());
        if str_eq(l.as_str(), label) {
            return Some(j);
        }
        j = j + 1;
    }
    None
}

/// Which downloaded secrets the picked lines of the default picker open, in the
/// order picked.
pub fn picked_downloads(items: &Vec<(DbSecret, DbDownload)>, picked: &Vec<String>) -> (r: Vec<usize>)
    ensures
        positions(r@) == picked_positions(items@, string_views(picked@)),
{
    let mut out: Vec<usize> = Vec::new();
    let mut i: usize = 0;
    while i < picked.len()
        invariant
            i <= picked@.len(),
            positions(out@) == picked_positions(
                items@,
                string_views(picked@).subrange(0, i as int),
            ),
        decreases picked@.len() - i,
    {
        proof {
            assert(string_views(picked@).subrange(0, i + 1).drop_last() =~= string_views(picked@).subrange(
                0,
                i as int,
            ));
            assert(string_views(picked@).subrange(0, i + 1).last() == picked@[i as int]@);
        }
        let ghost before = out@;
        let ghost prefix = string_views(picked@).subrange(0, i + 1);
        assert(picked_positions(items@, prefix) == match first_labelled(items@, picked@[i as int]@, 0) {
            Some(j) => picked_positions(items@, prefix.drop_last()).push(j),
            None => picked_positions(items@, prefix.drop_last()),
        });
        let found = find_labelled(items, picked[i].as_str());
        match found {
            Some(j) => {
                out.push(j);
                assert(positions(out@) =~= positions(before).push(
                    j as int,
                ));
            },
            None => {},
        }
        i = i + 1;
    }
    assert(string_views(picked@).subrange(0, picked@.len() as int) =~= string_views(picked@));
    out
}

proof fn lemma_first_labelled_at(items: Seq<(DbSecret, DbDownload)>, i: int, from: int)
    requires
        0 <= from <= i < items.len(),
        forall|j: int| from <= j < i ==> label_of(#[trigger] items[j]) != label_of(items[i]),
    ensures
        first_labelled(items, label_of(items[i]), from) == Some(i),
    decreases i - from,
{
    if from < i {
        lemma_first_labelled_at(items, i, from + 1);
    }
}

/// Picking the picker line of a downloaded secret opens that secret, when no
/// secret listed before it shows the same line.
pub proof fn law_picking_a_line_opens_its_secret(items: Seq<(DbSecret, DbDownload)>, i: int)
    requires
        0 <= i < items.len(),
        forall|j: int| 0 <= j < i ==> label_of(#[trigger] items[j]) != label_of(items[i]),
    ensures
        picked_positions(items, seq![label_of(items[i])]) == seq![i],
{
    lemma_first_labelled_at(items, i, 0);
    let picked = seq![label_of(items[i])];
    assert(picked.drop_last() =~= Seq::<Seq<char>>::empty());
    assert(picked_positions(items, picked.drop_last()) =~= Seq::<int>::empty());
    assert(picked_positions(items, picked) =~= seq![i]);
}

} // verus!
