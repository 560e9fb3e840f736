//! The path-slug identifier: the name of a project's directory under the
//! IDE's projects area.

use vstd::prelude::*;

verus! {

/// Characters that separate the words of a slug.
pub open spec fn is_slug_separator(c: char) -> bool {
    c == '/' || c == '.' || c == '-'
}

/// The slug of `s`: the maximal runs of characters that are not `/`, `.` or
/// `-`, joined by single dashes, with no dash at either end.
pub open spec fn slug(s: Seq<char>) -> Seq<char>
    decreases s.len(),
{
    if s.len() == 0 {
        Seq::empty()
    } else {
        let r = slug(s.drop_last());
        let c = s.last();
        if is_slug_separator(c) {
            r
        } else if s.len() >= 2 && is_slug_separator(s[s.len() - 2]) && r.len() > 0 {
            r.push('-').push(c)
        } else {
            r.push(c)
        }
    }
}

/// Computes the projects-area identifier of a path: every `/` and `.` becomes
/// `-`, runs of dashes collapse to one, and dashes at either end are dropped.
pub fn path_to_folder_id(path: &str) -> (r: String)
    ensures
        r@ == slug(path@),
{
    let chars = crate::text::chars_of(path);
    let mut out: Vec<char> = Vec::new();
    let mut i: usize = 0;
    while i < chars.len()
        invariant
            i <= chars.len(),
            chars@ == path@,
            out@ == slug(path@.take(i as int)),
        decreases chars.len() - i,
    {
        let c = chars[i];
        let ghost prefix = path@.take(i + 1);
        assert(prefix.drop_last() == path@.take(i as int));
        if c == '/' || c == '.' || c == '-' {
        } else if i >= 1 && (chars[i - 1] == '/' || chars[i - 1] == '.' || chars[i - 1] == '-')
            && out.len() > 0 {
            out.push('-');
            out.push(c);
        } else {
            out.push(c);
        }
        i = i + 1;
    }
    assert(path@.take(chars.len() as int) == path@);
    crate::text::string_of_chars(&out)
}

/// Text that slugging leaves alone but for one dash at its end: no `/` or
/// `.`, no dash first, no two dashes in a row.
pub open spec fn slug_shaped(t: Seq<char>) -> bool {
    &&& forall|i: int| 0 <= i < t.len() ==> #[trigger] t[i] != '/' && t[i] != '.'
    &&& t.len() > 0 ==> t[0] != '-'
    &&& forall|i: int| 0 <= i < t.len() - 1 ==> !(#[trigger] t[i] == '-' && t[i + 1] == '-')
}

/// A slug is shaped so, and does not end with a dash.
proof fn lemma_slug_shaped(s: Seq<char>)
    ensures
        slug_shaped(slug(s)),
        slug(s).len() > 0 ==> slug(s).last() != '-',
    decreases s.len(),
{
    if s.len() > 0 {
        lemma_slug_shaped(s.drop_last());
        let r = slug(s.drop_last());
        let c = s.last();
        if !is_slug_separator(c) {
            if s.len() >= 2 && is_slug_separator(s[s.len() - 2]) && r.len() > 0 {
                let t = r.push('-').push(c);
                assert(t[r.len() as int] == '-');
                assert forall|i: int| 0 <= i < t.len() - 1 implies !(#[trigger] t[i] == '-' && t[i
                    + 1] == '-') by {
                    if i < r.len() - 1 {
                        assert(t[i] == r[i] && t[i + 1] == r[i + 1]);
                    } else if i == r.len() - 1 {
                        assert(t[i] == r.last());
                    }
                }
            } else {
                let t = r.push(c);
                assert forall|i: int| 0 <= i < t.len() - 1 implies !(#[trigger] t[i] == '-' && t[i
                    + 1] == '-') by {
                    if i < r.len() - 1 {
                        assert(t[i] == r[i] && t[i + 1] == r[i + 1]);
                    }
                }
            }
        }
    }
}

/// Slugging text so shaped gives it back, less a dash at its end.
proof fn lemma_slug_of_shaped(t: Seq<char>)
    requires
        slug_shaped(t),
    ensures
        t.len() > 0 && t.last() == '-' ==> slug(t) == t.drop_last(),
        !(t.len() > 0 && t.last() == '-') ==> slug(t) == t,
    decreases t.len(),
{
    if t.len() > 0 {
        let p = t.drop_last();
        assert(slug_shaped(p)) by {
            assert forall|i: int| 0 <= i < p.len() - 1 implies !(#[trigger] p[i] == '-' && p[i + 1]
                == '-') by {
                assert(p[i] == t[i] && p[i + 1] == t[i + 1]);
            }
        }
        lemma_slug_of_shaped(p);
        let c = t.last();
        if c != '-' {
            if t.len() >= 2 && is_slug_separator(t[t.len() - 2]) {
                assert(t[t.len() - 2] == '-');
                assert(p.last() == '-');
                assert(p[0] != '-');
                assert(p.len() >= 2);
                assert(slug(p) == p.drop_last());
                assert(slug(p).len() > 0);
                assert(slug(p).push('-').push(c) =~= t);
            } else {
                assert(slug(p).push(c) =~= t);
            }
        } else {
            if t.len() >= 2 {
                assert(!(t[t.len() - 2] == '-' && t[t.len() - 1] == '-'));
            }
        }
    }
}

/// Slugging is idempotent: the slug of a slug is that slug.
pub proof fn lemma_slug_idempotent(s: Seq<char>)
    ensures
        slug(slug(s)) == slug(s),
{
    lemma_slug_shaped(s);
    lemma_slug_of_shaped(slug(s));
}

} // verus!
