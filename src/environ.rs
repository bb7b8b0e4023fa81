use vstd::prelude::*;
use crate::text::{chars_are, chars_contain, chars_of, chars_start_with};

verus! {

/// Names that are always removed: they steer shell start-up, search paths,
/// mail, Kerberos and message catalogues.
pub open spec fn denied_name(k: Seq<char>) -> bool {
    ||| k == "_RLD_"@
    ||| k == "BASH_ENV"@
    ||| k == "ENV"@
    ||| k == "HOME"@
    ||| k == "IFS"@
    ||| k == "KRB_CONF"@
    ||| k == "LIBPATH"@
    ||| k == "MAIL"@
    ||| k == "NLSPATH"@
    ||| k == "PATH"@
    ||| k == "SHELL"@
    ||| k == "SHLIB_PATH"@
}

/// Names with this prefix (the dynamic linker's) are always removed.
pub open spec fn denied_prefix(k: Seq<char>) -> bool {
    "LD_"@.is_prefix_of(k)
}

/// Locale names that are kept only while their value holds no `/`.
pub open spec fn guarded_name(k: Seq<char>) -> bool {
    k == "LANG"@ || k == "LANGUAGE"@ || "LC_"@.is_prefix_of(k)
}

/// Whether the variable `k=v` is removed before privileged work.
pub open spec fn must_remove(k: Seq<char>, v: Seq<char>) -> bool {
    denied_name(k) || denied_prefix(k) || (guarded_name(k) && v.contains('/'))
}

/// Whether a variable survives sanitization.
pub open spec fn kept_var(p: (String, String)) -> bool {
    !must_remove(p.0@, p.1@)
}

/// The variables that survive, in their order.
pub open spec fn kept_vars(s: Seq<(String, String)>) -> Seq<(String, String)>
    decreases s.len(),
{
    if s.len() == 0 {
        s
    } else if kept_var(s.last()) {
        kept_vars(s.drop_last()).push(s.last())
    } else {
        kept_vars(s.drop_last())
    }
}

/// The names of the variables that are removed, in their order.
pub open spec fn removed_names(s: Seq<(String, String)>) -> Seq<String>
    decreases s.len(),
{
    if s.len() == 0 {
        Seq::empty()
    } else if kept_var(s.last()) {
        removed_names(s.drop_last())
    } else {
        removed_names(s.drop_last()).push(s.last().0)
    }
}

fn is_denied_name(k: &Vec<char>) -> (r: bool)
    ensures
        r == denied_name(k@),
{
    chars_are(k, "_RLD_") || chars_are(k, "BASH_ENV") || chars_are(k, "ENV") || chars_are(k, "HOME")
        || chars_are(k, "IFS") || chars_are(k, "KRB_CONF") || chars_are(k, "LIBPATH")
        || chars_are(k, "MAIL") || chars_are(k, "NLSPATH") || chars_are(k, "PATH")
        || chars_are(k, "SHELL") || chars_are(k, "SHLIB_PATH")
}

/// Whether the variable `key=value` must be removed before privileged work:
/// a denied name or one with the `LD_` prefix always, and `LANG`,
/// `LANGUAGE` or a name with the `LC_` prefix when the value holds a `/`.
pub fn must_remove_var(key: &str, value: &str) -> (r: bool)
    ensures
        r == must_remove(key@, value@),
{
    let k = chars_of(key);
    if is_denied_name(&k) || chars_start_with(&k, "LD_") {
        return true;
    }
    let guarded = chars_are(&k, "LANG") || chars_are(&k, "LANGUAGE") || chars_start_with(&k, "LC_");
    guarded && chars_contain(&chars_of(value), '/')
}

/// The variables of `vars` that survive sanitization, in their order; every
/// variable is inspected.
pub fn filter_environ(vars: &Vec<(String, String)>) -> (r: Vec<(String, String)>)
    ensures
        r@ == kept_vars(vars@),
{
    let mut out: Vec<(String, String)> = Vec::new();
    let mut i: usize = 0;
    while i < vars.len()
        invariant
            i <= vars@.len(),
            out@ == kept_vars(vars@.take(i as int)),
        decreases vars@.len() - i,
    {
        assert(vars@.take(i + 1).drop_last() =~= vars@.take(i as int));
        let (k, v) = &vars[i];
        if !must_remove_var(k.as_str(), v.as_str()) {
            out.push((k.clone(), v.clone()));
        }
        i = i + 1;
    }
    assert(vars@.take(vars@.len() as int) =~= vars@);
    out
}

/// The names of the variables of `vars` to remove, in their order; every
/// variable is inspected.
pub fn environ_removals(vars: &Vec<(String, String)>) -> (r: Vec<String>)
    ensures
        r@ == removed_names(vars@),
{
    let mut out: Vec<String> = Vec::new();
    let mut i: usize = 0;
    while i < vars.len()
        invariant
            i <= vars@.len(),
            out@ == removed_names(vars@.take(i as int)),
        decreases vars@.len() - i,
    {
        assert(vars@.take(i + 1).drop_last() =~= vars@.take(i as int));
        let (k, v) = &vars[i];
        if must_remove_var(k.as_str(), v.as_str()) {
            out.push(k.clone());
        }
        i = i + 1;
    }
    assert(vars@.take(vars@.len() as int) =~= vars@);
    out
}

/// Every variable that survives sanitization survives a second pass.
proof fn lemma_kept_all_kept(s: Seq<(String, String)>)
    ensures
        forall|i: int| 0 <= i < kept_vars(s).len() ==> kept_var(#[trigger] kept_vars(s)[i]),
    decreases s.len(),
{
    if s.len() > 0 {
        lemma_kept_all_kept(s.drop_last());
        let p = kept_vars(s.drop_last());
        assert forall|i: int| 0 <= i < kept_vars(s).len() implies kept_var(
            #[trigger] kept_vars(s)[i],
        ) by {
            if i < p.len() {
                assert(kept_vars(s)[i] == p[i]);
            }
        }
    }
}

proof fn lemma_kept_when_all_kept(s: Seq<(String, String)>)
    requires
        forall|i: int| 0 <= i < s.len() ==> kept_var(#[trigger] s[i]),
    ensures
        kept_vars(s) == s,
    decreases s.len(),
{
    if s.len() > 0 {
        lemma_kept_when_all_kept(s.drop_last());
        assert(kept_var(s[s.len() - 1]));
        assert(s.drop_last().push(s.last()) =~= s);
    }
}

/// Sanitizing twice leaves the same variables as sanitizing once.
pub proof fn lemma_sanitize_idempotent(s: Seq<(String, String)>)
    ensures
        kept_vars(kept_vars(s)) == kept_vars(s),
{
    lemma_kept_all_kept(s);
    lemma_kept_when_all_kept(kept_vars(s));
}

/// A variable whose name is neither denied nor guarded survives
/// sanitization, whatever its value.
pub proof fn lemma_unrelated_survives(s: Seq<(String, String)>, i: int)
    requires
        0 <= i < s.len(),
        !denied_name(s[i].0@),
        !denied_prefix(s[i].0@),
        !guarded_name(s[i].0@),
    ensures
        kept_vars(s).contains(s[i]),
    decreases s.len(),
{
    if i == s.len() - 1 {
        assert(kept_vars(s)[kept_vars(s).len() - 1] == s[i]);
    } else {
        lemma_unrelated_survives(s.drop_last(), i);
        let p = kept_vars(s.drop_last());
        let k = choose|k: int| 0 <= k < p.len() && p[k] == s[i];
        assert(kept_vars(s)[k] == s[i]);
    }
}

} // verus!
