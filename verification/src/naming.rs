//! Container display-name conventions: stripping the runtime's leading path
//! separator, the instance prefix shown to the operator, the database-role
//! suffix, and the deterministic dump-artifact path.

use vstd::prelude::*;
use vstd::string::StrSliceExecFns;
use vstd::string::StringExecFns;

verus! {

/// The separator the runtime prepends to container display names.
pub open spec fn name_separator() -> char {
    '/'
}

/// The delimiter between an instance's prefix and its component roles.
pub open spec fn role_delimiter() -> char {
    '-'
}

/// A display name with every leading separator character removed.
pub open spec fn strip_spec(s: Seq<char>) -> Seq<char>
    decreases s.len(),
{
    if s.len() > 0 && s[0] == name_separator() {
        strip_spec(s.subrange(1, s.len() as int))
    } else {
        s
    }
}

/// The part of a display name before the first role delimiter; the whole
/// name when no delimiter occurs.
pub open spec fn instance_prefix(s: Seq<char>) -> Seq<char>
    decreases s.len(),
{
    if s.len() == 0 {
        s
    } else if s[0] == role_delimiter() {
        Seq::empty()
    } else {
        seq![s[0]] + instance_prefix(s.subrange(1, s.len() as int))
    }
}

/// `s` ends with `suffix`.
pub open spec fn ends_with(s: Seq<char>, suffix: Seq<char>) -> bool {
    suffix.len() <= s.len() && s.subrange(s.len() - suffix.len(), s.len() as int)
        == suffix
}

/// Character-by-character string equality, proved equivalent to equality of
/// the views.
pub fn str_eq(a: &str, b: &str) -> (r: bool)
    ensures
        r == (a@ == b@),
{
    let alen = a.unicode_len();
    let blen = b.unicode_len();
    if alen != blen {
        return false;
    }
    let mut i: usize = 0;
    while i < alen
        invariant
            alen == a@.len(),
            blen == b@.len(),
            alen == blen,
            i <= alen,
            forall|j: int| 0 <= j < i ==> a@[j] == b@[j],
        decreases alen - i,
    {
        if a.get_char(i) != b.get_char(i) {
            return false;
        }
        i += 1;
    }
    proof {
        assert(a@ =~= b@);
    }
    true
}

/// Removes every leading separator character from a display name.
pub fn strip_name(name: &str) -> (r: String)
    ensures
        r@ == strip_spec(name@),
{
    let len = name.unicode_len();
    let mut i: usize = 0;
    while i < len && name.get_char(i) == '/'
        invariant
            len == name@.len(),
            i <= len,
            forall|j: int| 0 <= j < i ==> name@[j] == name_separator(),
        decreases len - i,
    {
        i += 1;
    }
    proof {
        lemma_strip_is_tail(name@, i as int);
    }
    String::from_str(name.substring_char(i, len))
}

/// Stripping reaches the first non-separator position and keeps the rest.
proof fn lemma_strip_is_tail(s: Seq<char>, i: int)
    requires
        0 <= i <= s.len(),
        forall|j: int| 0 <= j < i ==> s[j] == name_separator(),
        i == s.len() || s[i] != name_separator(),
    ensures
        strip_spec(s) == s.subrange(i, s.len() as int),
    decreases i,
{
    if i == 0 {
        assert(s.subrange(0, s.len() as int) =~= s);
    } else {
        let t = s.subrange(1, s.len() as int);
        lemma_strip_is_tail(t, i - 1);
        assert(t.subrange(i - 1, t.len() as int) =~= s.subrange(i, s.len() as int));
    }
}

/// A stripped name never begins with the separator, so stripping twice is
/// the same as stripping once.
pub proof fn lemma_strip_idempotent(s: Seq<char>)
    ensures
        strip_spec(s).len() > 0 ==> strip_spec(s)[0] != name_separator(),
        strip_spec(strip_spec(s)) == strip_spec(s),
    decreases s.len(),
{
    if s.len() > 0 && s[0] == name_separator() {
        lemma_strip_idempotent(s.subrange(1, s.len() as int));
    }
}

/// The operator-facing instance name: the part of the display name before
/// the first role delimiter.
pub fn format_name(name: &str) -> (r: String)
    ensures
        r@ == instance_prefix(name@),
{
    let len = name.unicode_len();
    let mut i: usize = 0;
    while i < len && name.get_char(i) != '-'
        invariant
            len == name@.len(),
            i <= len,
            forall|j: int| 0 <= j < i ==> name@[j] != role_delimiter(),
        decreases len - i,
    {
        i += 1;
    }
    proof {
        lemma_prefix_is_head(name@, i as int);
    }
    String::from_str(name.substring_char(0, i))
}

/// The instance prefix reaches the first delimiter position.
proof fn lemma_prefix_is_head(s: Seq<char>, i: int)
    requires
        0 <= i <= s.len(),
        forall|j: int| 0 <= j < i ==> s[j] != role_delimiter(),
        i == s.len() || s[i] == role_delimiter(),
    ensures
        instance_prefix(s) == s.subrange(0, i),
    decreases s.len(),
{
    if s.len() == 0 {
        assert(s.subrange(0, 0) =~= s);
    } else if s[0] == role_delimiter() {
        assert(s.subrange(0, 0) =~= Seq::<char>::empty());
    } else {
        let t = s.subrange(1, s.len() as int);
        lemma_prefix_is_head(t, i - 1);
        assert(seq![s[0]] + t.subrange(0, i - 1) =~= s.subrange(0, i));
    }
}

/// Whether a display name carries the database-role suffix.
pub fn has_db_suffix(name: &str) -> (r: bool)
    ensures
        r == ends_with(name@, "postgres-db-1"@),
{
    let suffix = "postgres-db-1";
    let nlen = name.unicode_len();
    let slen = suffix.unicode_len();
    if nlen < slen {
        return false;
    }
    str_eq(name.substring_char(nlen - slen, nlen), suffix)
}

/// The canonical registry key for an operator's instance choice: the chosen
/// prefix qualified with the database-role suffix.
pub fn qualified_name(choice: &str) -> (r: String)
    ensures
        r@ == choice@ + "-postgres-db-1"@,
{
    let mut r = String::from_str(choice);
    r.append("-postgres-db-1");
    r
}

/// The dump artifact's path relative to the host's temporary root: a fixed
/// tool subdirectory, then a file named from the container identity.
pub fn dump_relative_path(container_id: &str) -> (r: String)
    ensures
        r@ == "ndmig/"@ + container_id@ + "-export.sql"@,
{
    let mut r = String::from_str("ndmig/");
    r.append(container_id);
    r.append("-export.sql");
    r
}

} // verus!
