use vstd::prelude::*;

verus! {

/// Joining a path component onto a directory: an absolute component
/// replaces the directory; otherwise one separator is put between them
/// unless the directory is empty or already ends with one.
pub open spec fn path_join_spec(dir: Seq<char>, part: Seq<char>) -> Seq<char> {
    if part.len() > 0 && part[0] == '/' {
        part
    } else if dir.len() == 0 || dir.last() == '/' {
        dir + part
    } else {
        dir + "/"@ + part
    }
}

/// Joins the component `part` onto the directory `dir`.
pub fn path_join(dir: &str, part: &str) -> (r: String)
    ensures
        r@ == path_join_spec(dir@, part@),
{
    let m = part.unicode_len();
    if m > 0 && part.get_char(0) == '/' {
        return part.to_owned();
    }
    let n = dir.unicode_len();
    let mut s = dir.to_owned();
    if n == 0 || dir.get_char(n - 1) == '/' {
        s.append(part);
    } else {
        s.append("/");
        s.append(part);
    }
    s
}

/// The view of an optional string.
pub open spec fn opt_view(r: Option<String>) -> Option<Seq<char>> {
    match r {
        Some(s) => Some(s@),
        None => None,
    }
}

/// `probe` was asked about a path with the text `path` and answered `answer`.
pub open spec fn probe_said<F: Fn(&str) -> bool>(probe: F, path: Seq<char>, answer: bool) -> bool {
    exists|s: &str| s@ == path && #[trigger] probe.ensures((s,), answer)
}

/// `cands[k]` is the first candidate for which `probe` answered true.
pub open spec fn first_hit_at<F: Fn(&str) -> bool>(probe: F, cands: Seq<Seq<char>>, k: int) -> bool {
    &&& 0 <= k < cands.len()
    &&& probe_said(probe, cands[k], true)
    &&& forall|j: int| 0 <= j < k ==> probe_said(probe, cands[j], false)
}

/// The outcome `r` of trying `cands` in order with `probe`: the first
/// candidate that it accepted, or `None` when it refused every one.
pub open spec fn found_first<F: Fn(&str) -> bool>(
    probe: F,
    cands: Seq<Seq<char>>,
    r: Option<Seq<char>>,
) -> bool {
    match r {
        Some(p) => exists|k: int| #[trigger] first_hit_at(probe, cands, k) && cands[k] == p,
        None => forall|j: int| 0 <= j < cands.len() ==> probe_said(probe, cands[j], false),
    }
}

/// A search that found nothing in `a` and then `r` in `b` found `r` in `a + b`.
pub proof fn lemma_found_first_skip<F: Fn(&str) -> bool>(
    probe: F,
    a: Seq<Seq<char>>,
    b: Seq<Seq<char>>,
    r: Option<Seq<char>>,
)
    requires
        found_first(probe, a, None),
        found_first(probe, b, r),
    ensures
        found_first(probe, a + b, r),
{
    let ab = a + b;
    match r {
        Some(p) => {
            let k = choose|k: int| #[trigger] first_hit_at(probe, b, k) && b[k] == p;
            assert(ab[a.len() + k] == b[k]);
            assert forall|j: int| 0 <= j < a.len() + k implies probe_said(probe, ab[j], false) by {
                if j < a.len() {
                    assert(ab[j] == a[j]);
                } else {
                    assert(ab[j] == b[j - a.len()]);
                }
            }
            assert(first_hit_at(probe, ab, a.len() + k));
        },
        None => {
            assert forall|j: int| 0 <= j < ab.len() implies probe_said(probe, ab[j], false) by {
                if j < a.len() {
                    assert(ab[j] == a[j]);
                } else {
                    assert(ab[j] == b[j - a.len()]);
                }
            }
        },
    }
}

/// A search that found `p` in `a` found `p` in `a + b`.
pub proof fn lemma_found_first_keep<F: Fn(&str) -> bool>(
    probe: F,
    a: Seq<Seq<char>>,
    b: Seq<Seq<char>>,
    p: Seq<char>,
)
    requires
        found_first(probe, a, Some(p)),
    ensures
        found_first(probe, a + b, Some(p)),
{
    let ab = a + b;
    let k = choose|k: int| #[trigger] first_hit_at(probe, a, k) && a[k] == p;
    assert forall|j: int| 0 <= j <= k implies ab[j] == a[j] by {}
    assert(first_hit_at(probe, ab, k));
}

} // verus!
