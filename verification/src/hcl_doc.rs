//! Writing the configuration back as an HCL document.
//!
//! The library decides which blocks and attributes the document holds, in which
//! order; the `hcl` crate renders them.

use vstd::prelude::*;
use crate::config::{Config, ConfigView, DefaultsView, ProviderView, provider_views};
use crate::paths::opt_view;
use crate::text::{chars_of, push_str, string_from};

verus! {

/// An attribute value.
pub enum HclValue {
    Str(String),
    Int(u64),
    Bool(bool),
}

/// The view of an attribute value.
pub enum HclValueView {
    Str(Seq<char>),
    Int(u64),
    Bool(bool),
}

impl View for HclValue {
    type V = HclValueView;

    open spec fn view(&self) -> HclValueView {
        match self {
            HclValue::Str(s) => HclValueView::Str(s@),
            HclValue::Int(n) => HclValueView::Int(*n),
            HclValue::Bool(b) => HclValueView::Bool(*b),
        }
    }
}

/// A block: its identifier, its labels, and its attributes in order.
pub struct HclBlock {
    pub ident: String,
    pub labels: Vec<String>,
    pub attributes: Vec<(String, HclValue)>,
}

/// The view of a block.
pub struct HclBlockView {
    pub ident: Seq<char>,
    pub labels: Seq<Seq<char>>,
    pub attributes: Seq<(Seq<char>, HclValueView)>,
}

impl View for HclBlock {
    type V = HclBlockView;

    open spec fn view(&self) -> HclBlockView {
        HclBlockView {
            ident: self.ident@,
            labels: self.labels@.map_values(|l: String| l@),
            attributes: self.attributes@.map_values(|a: (String, HclValue)| (a.0@, a.1@)),
        }
    }
}

/// The views of a list of blocks.
pub open spec fn block_views(b: Seq<HclBlock>) -> Seq<HclBlockView> {
    b.map_values(|x: HclBlock| x@)
}

/// What the `hcl` crate renders for these blocks (`hcl::to_string` of a body
/// built from them): the text, or `None` if it reports an error.
pub uninterp spec fn hcl_render(blocks: Seq<HclBlockView>) -> Option<Seq<char>>;

/// Build an `hcl::Body` from the blocks, one for one, and render it with `hcl::to_string`.
#[verifier::external_body]
fn render_blocks(blocks: &Vec<HclBlock>) -> (r: Option<String>)
    ensures
        opt_view(r) == hcl_render(block_views(blocks@)),
{
    let mut body = hcl::Body::builder();
    for b in blocks.iter() {
        let mut bb = hcl::Block::builder(b.ident.as_str()).add_labels(b.labels.iter().map(|l| l.as_str()));
        for (k, v) in b.attributes.iter() {
            bb = match v {
                HclValue::Str(s) => bb.add_attribute((k.as_str(), s.as_str())),
                HclValue::Int(n) => bb.add_attribute((k.as_str(), *n)),
                HclValue::Bool(x) => bb.add_attribute((k.as_str(), *x)),
            };
        }
        body = body.add_block(bb.build());
    }
    hcl::to_string(&body.build()).ok()
}

/// `attrs`, then `(key, value)` if the value is present.
pub open spec fn push_str_attr(attrs: Seq<(Seq<char>, HclValueView)>, key: Seq<char>, v: Option<Seq<char>>) -> Seq<(Seq<char>, HclValueView)> {
    match v {
        Some(s) => attrs.push((key, HclValueView::Str(s))),
        None => attrs,
    }
}

/// The attributes of the `defaults` block, in order, each only when set.
pub open spec fn defaults_attributes(d: DefaultsView) -> Seq<(Seq<char>, HclValueView)> {
    let a0 = push_str_attr(Seq::empty(), "editor"@, d.editor);
    let a1 = push_str_attr(a0, "secrets_path"@, d.secrets_path);
    let a2 = match d.cache_ttl {
        Some(n) => a1.push(("cache_ttl"@, HclValueView::Int(n))),
        None => a1,
    };
    let a3 = push_str_attr(a2, "default_provider"@, d.default_provider);
    let a4 = match d.max_versions {
        Some(n) => a3.push(("max_versions"@, HclValueView::Int(n as u64))),
        None => a3,
    };
    match d.keychain_cache {
        Some(b) => a4.push(("keychain_cache"@, HclValueView::Bool(b))),
        None => a4,
    }
}

/// The attributes of a `provider` block: its kind, then each set field in order.
pub open spec fn provider_attributes(p: ProviderView) -> Seq<(Seq<char>, HclValueView)> {
    let a0 = seq![("kind"@, HclValueView::Str(p.kind))];
    let a1 = push_str_attr(a0, "profile"@, p.profile);
    let a2 = push_str_attr(a1, "region"@, p.region);
    let a3 = push_str_attr(a2, "vault"@, p.vault);
    let a4 = push_str_attr(a3, "organization"@, p.organization);
    let a5 = push_str_attr(a4, "token_env"@, p.token_env);
    push_str_attr(a5, "project"@, p.project)
}

/// The blocks of the configuration: `defaults` (when there are defaults), then one
/// `provider "{id}"` block per provider, in order.
pub open spec fn config_blocks(c: ConfigView) -> Seq<HclBlockView> {
    let d = match c.defaults {
        Some(d) => seq![HclBlockView { ident: "defaults"@, labels: Seq::empty(), attributes: defaults_attributes(d) }],
        None => Seq::empty(),
    };
    d + c.providers.map_values(
        |p: ProviderView| HclBlockView { ident: "provider"@, labels: seq![p.id], attributes: provider_attributes(p) },
    )
}

fn push_opt_str(attrs: &mut Vec<(String, HclValue)>, key: &str, v: &Option<String>)
    ensures
        final(attrs)@.map_values(|a: (String, HclValue)| (a.0@, a.1@)) == push_str_attr(
            old(attrs)@.map_values(|a: (String, HclValue)| (a.0@, a.1@)),
            key@,
            opt_view(*v),
        ),
{
    match v {
        Some(s) => {
            attrs.push((string_from(chars_of(key).as_slice()), HclValue::Str(string_from(chars_of(s.as_str()).as_slice()))));
            assert(final(attrs)@.map_values(|a: (String, HclValue)| (a.0@, a.1@)) =~= old(attrs)@.map_values(
                |a: (String, HclValue)| (a.0@, a.1@),
            ).push((key@, HclValueView::Str(s@))));
        },
        None => {},
    }
}

fn push_attr(attrs: &mut Vec<(String, HclValue)>, key: &str, v: HclValue)
    ensures
        final(attrs)@.map_values(|a: (String, HclValue)| (a.0@, a.1@)) == old(attrs)@.map_values(
            |a: (String, HclValue)| (a.0@, a.1@),
        ).push((key@, v@)),
{
    let ghost vv = v@;
    attrs.push((string_from(chars_of(key).as_slice()), v));
    assert(final(attrs)@.map_values(|a: (String, HclValue)| (a.0@, a.1@)) =~= old(attrs)@.map_values(
        |a: (String, HclValue)| (a.0@, a.1@),
    ).push((key@, vv)));
}

fn provider_block(p: &crate::config::ProviderConfig) -> (r: HclBlock)
    ensures
        r@ == (HclBlockView { ident: "provider"@, labels: seq![p@.id], attributes: provider_attributes(p@) }),
{
    let mut attrs: Vec<(String, HclValue)> = Vec::new();
    push_attr(&mut attrs, "kind", HclValue::Str(string_from(chars_of(p.kind.as_str()).as_slice())));
    push_opt_str(&mut attrs, "profile", &p.profile);
    push_opt_str(&mut attrs, "region", &p.region);
    push_opt_str(&mut attrs, "vault", &p.vault);
    push_opt_str(&mut attrs, "organization", &p.organization);
    push_opt_str(&mut attrs, "token_env", &p.token_env);
    push_opt_str(&mut attrs, "project", &p.project);
    let mut labels: Vec<String> = Vec::new();
    labels.push(string_from(chars_of(p.id.as_str()).as_slice()));
    let r = HclBlock { ident: string_from(chars_of("provider").as_slice()), labels, attributes: attrs };
    assert(r@.labels =~= seq![p@.id]);
    assert(r@.attributes =~= provider_attributes(p@));
    r
}

fn defaults_block(d: &crate::config::Defaults) -> (r: HclBlock)
    ensures
        r@ == (HclBlockView { ident: "defaults"@, labels: Seq::empty(), attributes: defaults_attributes(d@) }),
{
    let mut attrs: Vec<(String, HclValue)> = Vec::new();
    push_opt_str(&mut attrs, "editor", &d.editor);
    push_opt_str(&mut attrs, "secrets_path", &d.secrets_path);
    match d.cache_ttl {
        Some(n) => push_attr(&mut attrs, "cache_ttl", HclValue::Int(n)),
        None => {},
    }
    push_opt_str(&mut attrs, "default_provider", &d.default_provider);
    match d.max_versions {
        Some(n) => push_attr(&mut attrs, "max_versions", HclValue::Int(n as u64)),
        None => {},
    }
    match d.keychain_cache {
        Some(b) => push_attr(&mut attrs, "keychain_cache", HclValue::Bool(b)),
        None => {},
    }
    let r = HclBlock { ident: string_from(chars_of("defaults").as_slice()), labels: Vec::new(), attributes: attrs };
    assert(r@.labels =~= Seq::<Seq<char>>::empty());
    assert(r@.attributes =~= defaults_attributes(d@));
    r
}

/// The blocks that describe a configuration.
pub fn document_blocks(config: &Config) -> (r: Vec<HclBlock>)
    ensures
        block_views(r@) == config_blocks(config@),
{
    let mut out: Vec<HclBlock> = Vec::new();
    match &config.defaults {
        Some(d) => out.push(defaults_block(d)),
        None => {},
    }
    let ghost head = block_views(out@);
    let mut i: usize = 0;
    while i < config.providers.len()
        invariant
            i <= config.providers@.len(),
            out@.len() == head.len() + i,
            forall|k: int| 0 <= k < head.len() ==> (#[trigger] out@[k])@ == head[k],
            forall|k: int|
                0 <= k < i ==> (#[trigger] out@[head.len() + k])@ == (HclBlockView {
                    ident: "provider"@,
                    labels: seq![config.providers@[k]@.id],
                    attributes: provider_attributes(config.providers@[k]@),
                }),
        decreases config.providers@.len() - i,
    {
        out.push(provider_block(&config.providers[i]));
        i = i + 1;
    }
    proof {
        let want = config_blocks(config@);
        assert(head =~= match config@.defaults {
            Some(d) => seq![HclBlockView { ident: "defaults"@, labels: Seq::empty(), attributes: defaults_attributes(d) }],
            None => Seq::<HclBlockView>::empty(),
        });
        assert forall|k: int| 0 <= k < out@.len() implies #[trigger] block_views(out@)[k] == want[k] by {
            if k >= head.len() {
                let j = k - head.len();
                assert(out@[head.len() + j] == out@[k]);
            }
        }
        assert(block_views(out@) =~= want);
    }
    out
}

/// The comment lines a written configuration file starts with.
pub open spec fn file_header() -> Seq<char> {
    "# jaws configuration file\n# cache_ttl is in seconds (default: 900 = 15 minutes)\n\n"@
}

impl Config {
    /// The configuration as an HCL document: the header comment, then the rendered
    /// blocks. Rendering these blocks is taken to succeed, as the configuration's
    /// own serialization asserts.
    pub fn to_hcl(&self) -> (r: String)
        requires
            hcl_render(config_blocks(self@)) is Some,
        ensures
            r@ == file_header() + hcl_render(config_blocks(self@))->Some_0,
    {
        let blocks = document_blocks(self);
        match render_blocks(&blocks) {
            Some(text) => {
                let mut v = chars_of("# jaws configuration file\n# cache_ttl is in seconds (default: 900 = 15 minutes)\n\n");
                push_str(&mut v, text.as_str());
                string_from(v.as_slice())
            },
            None => {
                assert(false);
                string_from(Vec::<char>::new().as_slice())
            },
        }
    }

    /// The configuration as an HCL document, as `to_hcl` writes it, or `None` when
    /// the `hcl` crate reports that it cannot render the blocks.
    pub fn to_hcl_checked(&self) -> (r: Option<String>)
        ensures
            match hcl_render(config_blocks(self@)) {
                Some(text) => r matches Some(s) && s@ == file_header() + text,
                None => r is None,
            },
    {
        let blocks = document_blocks(self);
        match render_blocks(&blocks) {
            Some(_) => Some(self.to_hcl()),
            None => None,
        }
    }
}

/// The attribute `(key, value)` is in the list.
pub open spec fn has_attribute(attrs: Seq<(Seq<char>, HclValueView)>, key: Seq<char>, value: HclValueView) -> bool {
    exists|i: int| 0 <= i < attrs.len() && attrs[i] == (key, value)
}

/// No attribute of the list has this key.
pub open spec fn lacks_key(attrs: Seq<(Seq<char>, HclValueView)>, key: Seq<char>) -> bool {
    forall|i: int| 0 <= i < attrs.len() ==> (#[trigger] attrs[i]).0 != key
}

/// The setting `key` is written as it is set: present with its value when set,
/// absent otherwise.
pub open spec fn written_as_set(attrs: Seq<(Seq<char>, HclValueView)>, key: Seq<char>, v: Option<HclValueView>) -> bool {
    match v {
        Some(x) => has_attribute(attrs, key, x),
        None => lacks_key(attrs, key),
    }
}

/// A string setting as an attribute value.
pub open spec fn str_value(v: Option<Seq<char>>) -> Option<HclValueView> {
    match v {
        Some(s) => Some(HclValueView::Str(s)),
        None => None,
    }
}

proof fn lemma_push_keeps(attrs: Seq<(Seq<char>, HclValueView)>, a: (Seq<char>, HclValueView), key: Seq<char>, v: Option<HclValueView>)
    requires
        written_as_set(attrs, key, v),
        a.0 != key,
    ensures
        written_as_set(attrs.push(a), key, v),
{
    let s = attrs.push(a);
    match v {
        Some(x) => {
            let i = choose|i: int| 0 <= i < attrs.len() && attrs[i] == (key, x);
            assert(s[i] == attrs[i]);
        },
        None => {
            assert forall|j: int| 0 <= j < s.len() implies (#[trigger] s[j]).0 != key by {
                if j < attrs.len() {
                    assert(s[j] == attrs[j]);
                }
            }
        },
    }
}

proof fn lemma_push_adds(attrs: Seq<(Seq<char>, HclValueView)>, key: Seq<char>, x: HclValueView)
    ensures
        has_attribute(attrs.push((key, x)), key, x),
{
    assert(attrs.push((key, x))[attrs.len() as int] == (key, x));
}

/// Every setting of the `defaults` block is written as it is set: each set setting
/// appears as an attribute with its value (numbers as numbers, switches as
/// booleans), and each unset one does not appear at all, so reading the block back
/// gives the same defaults.
pub proof fn law_defaults_written_as_set(d: DefaultsView)
    ensures
        written_as_set(defaults_attributes(d), "editor"@, str_value(d.editor)),
        written_as_set(defaults_attributes(d), "secrets_path"@, str_value(d.secrets_path)),
        written_as_set(defaults_attributes(d), "cache_ttl"@, match d.cache_ttl {
            Some(n) => Some(HclValueView::Int(n)),
            None => None,
        }),
        written_as_set(defaults_attributes(d), "default_provider"@, str_value(d.default_provider)),
        written_as_set(defaults_attributes(d), "max_versions"@, match d.max_versions {
            Some(n) => Some(HclValueView::Int(n as u64)),
            None => None,
        }),
        written_as_set(defaults_attributes(d), "keychain_cache"@, match d.keychain_cache {
            Some(b) => Some(HclValueView::Bool(b)),
            None => None,
        }),
{
    reveal_strlit("editor");
    reveal_strlit("secrets_path");
    reveal_strlit("cache_ttl");
    reveal_strlit("default_provider");
    reveal_strlit("max_versions");
    reveal_strlit("keychain_cache");
    let keys = seq!["editor"@, "secrets_path"@, "cache_ttl"@, "default_provider"@, "max_versions"@, "keychain_cache"@];
    let vals = seq![
        str_value(d.editor),
        str_value(d.secrets_path),
        match d.cache_ttl {
            Some(n) => Some(HclValueView::Int(n)),
            None => None,
        },
        str_value(d.default_provider),
        match d.max_versions {
            Some(n) => Some(HclValueView::Int(n as u64)),
            None => None,
        },
        match d.keychain_cache {
            Some(b) => Some(HclValueView::Bool(b)),
            None => None,
        },
    ];
    assert("editor"@.len() == 6);
    assert("secrets_path"@.len() == 12);
    assert("cache_ttl"@.len() == 9);
    assert("default_provider"@.len() == 16);
    assert("max_versions"@.len() == 12);
    assert("keychain_cache"@.len() == 14);
    assert("secrets_path"@[0] != "max_versions"@[0]);
    assert forall|a: int, b: int| 0 <= a < b < 6 implies keys[a] != keys[b] by {
        if a == 1 && b == 4 {
            assert(keys[a][0] != keys[b][0]);
        } else {
            assert(keys[a].len() != keys[b].len());
        }
    }
    lemma_defaults_steps(d, keys, vals);
}

proof fn lemma_step(
    before: Seq<(Seq<char>, HclValueView)>,
    after: Seq<(Seq<char>, HclValueView)>,
    keys: Seq<Seq<char>>,
    vals: Seq<Option<HclValueView>>,
    n: int,
)
    requires
        keys.len() == 6,
        vals.len() == 6,
        0 <= n < 6,
        forall|a: int, b: int| 0 <= a < b < 6 ==> keys[a] != keys[b],
        forall|k: int| 0 <= k < n ==> written_as_set(before, #[trigger] keys[k], vals[k]),
        forall|k: int| n <= k < 6 ==> lacks_key(before, #[trigger] keys[k]),
        after == match vals[n] {
            Some(x) => before.push((keys[n], x)),
            None => before,
        },
    ensures
        forall|k: int| 0 <= k <= n ==> written_as_set(after, #[trigger] keys[k], vals[k]),
        forall|k: int| n < k < 6 ==> lacks_key(after, #[trigger] keys[k]),
{
    match vals[n] {
        Some(x) => {
            lemma_push_adds(before, keys[n], x);
            assert forall|k: int| 0 <= k <= n implies written_as_set(after, #[trigger] keys[k], vals[k]) by {
                if k < n {
                    lemma_push_keeps(before, (keys[n], x), keys[k], vals[k]);
                }
            }
            assert forall|k: int| n < k < 6 implies lacks_key(after, #[trigger] keys[k]) by {
                lemma_push_keeps(before, (keys[n], x), keys[k], None);
            }
        },
        None => {},
    }
}

proof fn lemma_defaults_steps(d: DefaultsView, keys: Seq<Seq<char>>, vals: Seq<Option<HclValueView>>)
    requires
        keys == seq!["editor"@, "secrets_path"@, "cache_ttl"@, "default_provider"@, "max_versions"@, "keychain_cache"@],
        vals == seq![
            str_value(d.editor),
            str_value(d.secrets_path),
            match d.cache_ttl {
                Some(n) => Some(HclValueView::Int(n)),
                None => None,
            },
            str_value(d.default_provider),
            match d.max_versions {
                Some(n) => Some(HclValueView::Int(n as u64)),
                None => None,
            },
            match d.keychain_cache {
                Some(b) => Some(HclValueView::Bool(b)),
                None => None,
            },
        ],
        forall|a: int, b: int| 0 <= a < b < 6 ==> keys[a] != keys[b],
    ensures
        forall|k: int| 0 <= k < 6 ==> written_as_set(defaults_attributes(d), #[trigger] keys[k], vals[k]),
{
    let a0 = push_str_attr(Seq::empty(), "editor"@, d.editor);
    let a1 = push_str_attr(a0, "secrets_path"@, d.secrets_path);
    let a2 = match d.cache_ttl {
        Some(n) => a1.push(("cache_ttl"@, HclValueView::Int(n))),
        None => a1,
    };
    let a3 = push_str_attr(a2, "default_provider"@, d.default_provider);
    let a4 = match d.max_versions {
        Some(n) => a3.push(("max_versions"@, HclValueView::Int(n as u64))),
        None => a3,
    };
    let a5 = match d.keychain_cache {
        Some(b) => a4.push(("keychain_cache"@, HclValueView::Bool(b))),
        None => a4,
    };
    assert(a5 == defaults_attributes(d));
    let e = Seq::<(Seq<char>, HclValueView)>::empty();
    lemma_step(e, a0, keys, vals, 0);
    lemma_step(a0, a1, keys, vals, 1);
    lemma_step(a1, a2, keys, vals, 2);
    lemma_step(a2, a3, keys, vals, 3);
    lemma_step(a3, a4, keys, vals, 4);
    lemma_step(a4, a5, keys, vals, 5);
}

} // verus!
