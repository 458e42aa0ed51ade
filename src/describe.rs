//! One-line descriptions of dependency records.

use vstd::prelude::*;
use crate::config::DependencyConfig;
use crate::dependency::{DependencyModel, DependencyView};
use crate::text::{opt_view, views};

verus! {

/// The text of `s` quoted and escaped as a Rust string literal.
pub uninterp spec fn debug_quoted(s: Seq<char>) -> Seq<char>;

/// Relies on the `Debug` formatting of `str`: a function of the text alone.
#[verifier::external_body]
fn quoted(s: &str) -> (r: String)
    ensures
        r@ == debug_quoted(s@),
{
    format!("{:?}", s)
}

/// `true` or `false`.
pub open spec fn bool_text(b: bool) -> Seq<char> {
    if b { "true"@ } else { "false"@ }
}

/// `key = "value", ` where the value is present.
pub open spec fn text_field(key: Seq<char>, v: Option<Seq<char>>) -> Seq<char> {
    match v {
        Some(x) => key + " = "@ + debug_quoted(x) + ", "@,
        None => Seq::empty(),
    }
}

/// `key = true, ` or `key = false, ` where the flag is present.
pub open spec fn flag_field(key: Seq<char>, v: Option<bool>) -> Seq<char> {
    match v {
        Some(b) => key + " = "@ + bool_text(b) + ", "@,
        None => Seq::empty(),
    }
}

/// The quoted items of `items`, each followed by `, ` but the last.
pub open spec fn quoted_items(items: Seq<Seq<char>>) -> Seq<char>
    decreases items.len(),
{
    if items.len() == 0 {
        Seq::empty()
    } else if items.len() == 1 {
        debug_quoted(items[0])
    } else {
        quoted_items(items.drop_last()) + ", "@ + debug_quoted(items.last())
    }
}

/// `features = [...], ` where the list is present.
pub open spec fn features_field(v: Option<Seq<Seq<char>>>) -> Seq<char> {
    match v {
        Some(items) => "features = ["@ + quoted_items(items) + "], "@,
        None => Seq::empty(),
    }
}

/// The unknown keys, each as `key = value, `.
pub open spec fn custom_items(c: Seq<(Seq<char>, Seq<char>)>) -> Seq<char>
    decreases c.len(),
{
    if c.len() == 0 {
        Seq::empty()
    } else {
        custom_items(c.drop_last()) + c.last().0 + " = "@ + c.last().1 + ", "@
    }
}

/// `custom = { ... }, ` where there are unknown keys.
pub open spec fn custom_field(c: Seq<(Seq<char>, Seq<char>)>) -> Seq<char> {
    if c.len() == 0 {
        Seq::empty()
    } else {
        "custom = { "@ + custom_items(c) + "}, "@
    }
}

/// The description of a dependency: each field present, in a fixed order,
/// then a closing brace.
pub open spec fn description(d: DependencyView) -> Seq<char> {
    text_field("version"@, d.version) + text_field("path"@, d.path) + flag_field("nexus"@, d.nexus)
        + text_field("git"@, d.git) + text_field("branch"@, d.branch) + text_field("tag"@, d.tag)
        + text_field("rev"@, d.rev) + features_field(d.features) + flag_field("default-features"@, d.default_features)
        + flag_field("workspace"@, d.workspace) + flag_field("optional"@, d.optional)
        + text_field("package"@, d.package) + text_field("registry"@, d.registry)
        + text_field("artifact"@, d.artifact) + text_field("target"@, d.target) + custom_field(d.custom)
        + "}"@
}

fn push_text_field(out: &mut String, key: &str, v: &Option<String>)
    ensures
        final(out)@ == old(out)@ + text_field(key@, opt_view(*v)),
{
    match v {
        Some(x) => {
            out.append(key);
            out.append(" = ");
            let q = quoted(x.as_str());
            out.append(q.as_str());
            out.append(", ");
        },
        None => {
            assert(old(out)@ + Seq::<char>::empty() =~= old(out)@);
        },
    }
}

fn push_flag_field(out: &mut String, key: &str, v: Option<bool>)
    ensures
        final(out)@ == old(out)@ + flag_field(key@, v),
{
    match v {
        Some(b) => {
            out.append(key);
            out.append(" = ");
            if b {
                out.append("true");
            } else {
                out.append("false");
            }
            out.append(", ");
        },
        None => {
            assert(old(out)@ + Seq::<char>::empty() =~= old(out)@);
        },
    }
}

fn push_features_field(out: &mut String, v: &Option<Vec<String>>)
    ensures
        final(out)@ == old(out)@ + features_field(crate::text::opt_views(*v)),
{
    match v {
        Some(items) => {
            out.append("features = [");
            let ghost start = out@;
            let mut i: usize = 0;
            while i < items.len()
                invariant
                    i <= items@.len(),
                    out@ == start + quoted_items(views(items@).subrange(0, i as int)),
                decreases items@.len() - i,
            {
                let ghost sub = views(items@).subrange(0, i + 1);
                assert(sub.drop_last() =~= views(items@).subrange(0, i as int));
                if i > 0 {
                    out.append(", ");
                }
                let q = quoted(items[i].as_str());
                out.append(q.as_str());
                proof {
                    if i == 0 {
                        assert(quoted_items(views(items@).subrange(0, 0)) =~= Seq::<char>::empty());
                    }
                }
                i = i + 1;
            }
            assert(views(items@).subrange(0, items@.len() as int) =~= views(items@));
            out.append("], ");
        },
        None => {
            assert(old(out)@ + Seq::<char>::empty() =~= old(out)@);
        },
    }
}

fn push_custom_field(out: &mut String, c: &Vec<(String, String)>)
    ensures
        final(out)@ == old(out)@ + custom_field(crate::text::pair_views(c@)),
{
    if c.len() == 0 {
        assert(old(out)@ + Seq::<char>::empty() =~= old(out)@);
        return;
    }
    out.append("custom = { ");
    let ghost start = out@;
    let ghost pv = crate::text::pair_views(c@);
    let mut i: usize = 0;
    while i < c.len()
        invariant
            i <= c@.len(),
            pv == crate::text::pair_views(c@),
            out@ == start + custom_items(pv.subrange(0, i as int)),
        decreases c@.len() - i,
    {
        assert(pv.subrange(0, i + 1).drop_last() =~= pv.subrange(0, i as int));
        let (k, x) = &c[i];
        out.append(k.as_str());
        out.append(" = ");
        out.append(x.as_str());
        out.append(", ");
        i = i + 1;
    }
    assert(pv.subrange(0, c@.len() as int) =~= pv);
    out.append("}, ");
}

impl DependencyModel {
    /// The record as one line of text.
    pub fn describe(&self) -> (r: String)
        ensures
            r@ == description(self@),
    {
        let mut out = String::new();
        push_text_field(&mut out, "version", &self.version);
        push_text_field(&mut out, "path", &self.path);
        push_flag_field(&mut out, "nexus", self.nexus);
        push_text_field(&mut out, "git", &self.git);
        push_text_field(&mut out, "branch", &self.branch);
        push_text_field(&mut out, "tag", &self.tag);
        push_text_field(&mut out, "rev", &self.rev);
        push_features_field(&mut out, &self.features);
        push_flag_field(&mut out, "default-features", self.default_features);
        push_flag_field(&mut out, "workspace", self.workspace);
        push_flag_field(&mut out, "optional", self.optional);
        push_text_field(&mut out, "package", &self.package);
        push_text_field(&mut out, "registry", &self.registry);
        push_text_field(&mut out, "artifact", &self.artifact);
        push_text_field(&mut out, "target", &self.target);
        push_custom_field(&mut out, &self.custom);
        out.append("}");
        assert(out@ =~= description(self@));
        out
    }
}

impl DependencyConfig {
    /// The declaration as one line of text: a bare version quoted, a full
    /// record described field by field.
    pub fn describe(&self) -> (r: String)
        ensures
            r@ == match self {
                DependencyConfig::Simple(v) => debug_quoted(v@),
                DependencyConfig::Detailed(d) => description(d@),
            },
    {
        match self {
            DependencyConfig::Simple(v) => quoted(v.as_str()),
            DependencyConfig::Detailed(_) => self.to_model().describe(),
        }
    }
}

} // verus!
