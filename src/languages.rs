use vstd::prelude::*;

verus! {

/// The stop markers registered for a language, in tie-break order.
/// An unregistered language has none.
pub open spec fn markers_of(language: Seq<char>) -> Seq<Seq<char>> {
    if language == "python"@ {
        seq!["\n\n"@, "\ndef"@, "\n#"@, "\nfrom"@, "\nclass"@, "\nimport"@]
    } else if language == "javascript"@ {
        seq!["\n\n"@, "\nfunction"@, "\n//"@, "\nimport"@, "\nclass"@]
    } else if language == "typescript"@ {
        seq!["\n\n"@, "\nfunction"@, "\n//"@, "\nimport"@, "\nclass"@, "\ninterface"@, "\ntype"@]
    } else if language == "rust"@ {
        seq!["\n\n"@, "\npub fn "@, "\npub "@, "\nfn "@, "\nimpl "@, "\n#["@, "\n//"@]
    } else {
        seq![]
    }
}

/// `m` occurs in `t` starting at offset `i`.
pub open spec fn occurs_at(t: Seq<char>, m: Seq<char>, i: int) -> bool {
    0 <= i && i + m.len() <= t.len() && t.subrange(i, i + m.len()) == m
}

/// Some marker of `ms` occurs in `t` starting at offset `i`.
pub open spec fn some_marker_at(t: Seq<char>, ms: Seq<Seq<char>>, i: int) -> bool {
    exists|k: int| 0 <= k < ms.len() && #[trigger] occurs_at(t, ms[k], i)
}

/// `p` is the smallest offset at which some marker of `ms` starts in `t`.
pub open spec fn is_first_stop(t: Seq<char>, ms: Seq<Seq<char>>, p: int) -> bool {
    &&& some_marker_at(t, ms, p)
    &&& forall|j: int| 0 <= j < p ==> !#[trigger] some_marker_at(t, ms, j)
}

/// No marker of `ms` occurs anywhere in `t`.
pub open spec fn marker_free(t: Seq<char>, ms: Seq<Seq<char>>) -> bool {
    forall|i: int| !#[trigger] some_marker_at(t, ms, i)
}

/// `t` cut just before the earliest marker registered for `language`,
/// or `t` itself when none occurs.
pub open spec fn filtered(language: Seq<char>, t: Seq<char>) -> Seq<char> {
    let ms = markers_of(language);
    if exists|p: int| is_first_stop(t, ms, p) {
        t.subrange(0, choose|p: int| is_first_stop(t, ms, p))
    } else {
        t
    }
}

/// `(p, k)` names the winning match: `p` is the earliest offset of any marker,
/// and `k` the first-listed marker that starts there.
pub open spec fn is_winning_match(t: Seq<char>, ms: Seq<Seq<char>>, p: int, k: int) -> bool {
    &&& is_first_stop(t, ms, p)
    &&& 0 <= k < ms.len()
    &&& occurs_at(t, ms[k], p)
    &&& forall|k2: int| 0 <= k2 < k ==> !#[trigger] occurs_at(t, ms[k2], p)
}

/// Every registered marker is non-empty.
pub proof fn lemma_markers_nonempty(language: Seq<char>)
    ensures
        forall|k: int| 0 <= k < markers_of(language).len() ==> #[trigger] markers_of(language)[k].len() > 0,
{
    reveal_strlit("\n\n");
    reveal_strlit("\ndef");
    reveal_strlit("\n#");
    reveal_strlit("\nfrom");
    reveal_strlit("\nclass");
    reveal_strlit("\nimport");
    reveal_strlit("\nfunction");
    reveal_strlit("\n//");
    reveal_strlit("\ninterface");
    reveal_strlit("\ntype");
    reveal_strlit("\npub fn ");
    reveal_strlit("\npub ");
    reveal_strlit("\nfn ");
    reveal_strlit("\nimpl ");
    reveal_strlit("\n#[");
}

proof fn lemma_first_stop_unique(t: Seq<char>, ms: Seq<Seq<char>>, p: int, q: int)
    requires
        is_first_stop(t, ms, p),
        is_first_stop(t, ms, q),
    ensures
        p == q,
{
    if p < q {
        assert(!some_marker_at(t, ms, p));
    } else if q < p {
        assert(!some_marker_at(t, ms, q));
    }
}

/// When `p` is the earliest marker offset, the filter keeps exactly `t[..p]`.
pub proof fn lemma_filtered_at_first_stop(language: Seq<char>, t: Seq<char>, p: int)
    requires
        is_first_stop(t, markers_of(language), p),
    ensures
        filtered(language, t) == t.subrange(0, p),
{
    let ms = markers_of(language);
    let q = choose|q: int| is_first_stop(t, ms, q);
    lemma_first_stop_unique(t, ms, p, q);
}

/// Text in which no marker of the language occurs passes through unchanged.
pub proof fn lemma_marker_free_passthrough(language: Seq<char>, t: Seq<char>)
    requires
        marker_free(t, markers_of(language)),
    ensures
        filtered(language, t) == t,
{
    let ms = markers_of(language);
    if exists|p: int| is_first_stop(t, ms, p) {
        let p = choose|p: int| is_first_stop(t, ms, p);
        assert(some_marker_at(t, ms, p));
    }
}

/// A language with no registered markers leaves every text unchanged.
pub proof fn lemma_unregistered_passthrough(language: Seq<char>, t: Seq<char>)
    requires
        markers_of(language).len() == 0,
    ensures
        filtered(language, t) == t,
{
    assert forall|i: int| !#[trigger] some_marker_at(t, markers_of(language), i) by {}
    lemma_marker_free_passthrough(language, t);
}

/// Filtered text holds no marker of its language.
pub proof fn lemma_filtered_is_marker_free(language: Seq<char>, t: Seq<char>)
    ensures
        marker_free(filtered(language, t), markers_of(language)),
{
    let ms = markers_of(language);
    let r = filtered(language, t);
    lemma_markers_nonempty(language);
    if exists|p: int| is_first_stop(t, ms, p) {
        let p = choose|p: int| is_first_stop(t, ms, p);
        assert forall|i: int| !#[trigger] some_marker_at(r, ms, i) by {
            if some_marker_at(r, ms, i) {
                let k = choose|k: int| 0 <= k < ms.len() && #[trigger] occurs_at(r, ms[k], i);
                assert(r.subrange(i, i + ms[k].len()) =~= t.subrange(i, i + ms[k].len()));
                assert(occurs_at(t, ms[k], i));
                assert(some_marker_at(t, ms, i));
            }
        }
    } else {
        assert forall|i: int| !#[trigger] some_marker_at(r, ms, i) by {
            if some_marker_at(r, ms, i) {
                lemma_least_marker_exists(t, ms, i);
            }
        }
    }
}

/// If some marker occurs at or before offset `i`, an earliest one exists.
proof fn lemma_least_marker_exists(t: Seq<char>, ms: Seq<Seq<char>>, i: int)
    requires
        some_marker_at(t, ms, i),
    ensures
        exists|p: int| is_first_stop(t, ms, p),
    decreases i,
{
    if forall|j: int| 0 <= j < i ==> !#[trigger] some_marker_at(t, ms, j) {
        assert(is_first_stop(t, ms, i));
    } else {
        let j = choose|j: int| 0 <= j < i && #[trigger] some_marker_at(t, ms, j);
        lemma_least_marker_exists(t, ms, j);
    }
}

/// Filtering twice gives what filtering once gives.
pub proof fn lemma_filter_idempotent(language: Seq<char>, t: Seq<char>)
    ensures
        filtered(language, filtered(language, t)) == filtered(language, t),
{
    lemma_filtered_is_marker_free(language, t);
    lemma_marker_free_passthrough(language, filtered(language, t));
}

/// Text `a + m + b`, where `m` is a marker of the language and no marker
/// starts inside `a`, is cut back to `a`.
pub proof fn lemma_truncates_before_marker(
    language: Seq<char>,
    a: Seq<char>,
    k: int,
    b: Seq<char>,
)
    requires
        0 <= k < markers_of(language).len(),
        forall|j: int|
            0 <= j < a.len() ==> !#[trigger] some_marker_at(
                a + markers_of(language)[k] + b,
                markers_of(language),
                j,
            ),
    ensures
        filtered(language, a + markers_of(language)[k] + b) == a,
{
    let ms = markers_of(language);
    let m = ms[k];
    let t = a + m + b;
    assert(t.subrange(a.len() as int, a.len() + m.len() as int) =~= m);
    assert(occurs_at(t, ms[k], a.len() as int));
    assert(some_marker_at(t, ms, a.len() as int));
    assert(is_first_stop(t, ms, a.len() as int));
    lemma_filtered_at_first_stop(language, t, a.len() as int);
    assert(t.subrange(0, a.len() as int) =~= a);
}

/// Whether two strings hold the same characters.
fn same_text(a: &str, b: &str) -> (r: bool)
    ensures
        r == (a@ == b@),
{
    let n = a.unicode_len();
    if n != b.unicode_len() {
        return false;
    }
    let mut i: usize = 0;
    while i < n
        invariant
            n == a@.len(),
            n == b@.len(),
            i <= n,
            forall|j: int| 0 <= j < i ==> a@[j] == b@[j],
        decreases n - i,
    {
        if a.get_char(i) != b.get_char(i) {
            return false;
        }
        i = i + 1;
    }
    assert(a@ =~= b@);
    true
}

/// The stop markers registered for `language`, in tie-break order.
pub fn stop_markers(language: &str) -> (r: Vec<&'static str>)
    ensures
        r@.len() == markers_of(language@).len(),
        forall|k: int| 0 <= k < r@.len() ==> #[trigger] r@[k]@ == markers_of(language@)[k],
{
    if same_text(language, "python") {
        vec!["\n\n", "\ndef", "\n#", "\nfrom", "\nclass", "\nimport"]
    } else if same_text(language, "javascript") {
        vec!["\n\n", "\nfunction", "\n//", "\nimport", "\nclass"]
    } else if same_text(language, "typescript") {
        vec!["\n\n", "\nfunction", "\n//", "\nimport", "\nclass", "\ninterface", "\ntype"]
    } else if same_text(language, "rust") {
        vec!["\n\n", "\npub fn ", "\npub ", "\nfn ", "\nimpl ", "\n#[", "\n//"]
    } else {
        Vec::new()
    }
}

/// Whether `m` occurs in `t` at offset `i`; `n` is the length of `t`.
fn occurs_at_exec(t: &str, n: usize, m: &str, i: usize) -> (r: bool)
    requires
        n == t@.len(),
        i <= n,
    ensures
        r == occurs_at(t@, m@, i as int),
{
    let len = m.unicode_len();
    if len > n - i {
        return false;
    }
    let mut j: usize = 0;
    while j < len
        invariant
            len == m@.len(),
            i + len <= n,
            n == t@.len(),
            j <= len,
            forall|x: int| 0 <= x < j ==> t@[i + x] == m@[x],
        decreases len - j,
    {
        if t.get_char(i + j) != m.get_char(j) {
            assert(t@.subrange(i as int, i + len as int)[j as int] != m@[j as int]);
            return false;
        }
        j = j + 1;
    }
    assert(t@.subrange(i as int, i + len as int) =~= m@);
    true
}

/// The earliest offset at which a marker of `language` starts in `text`,
/// paired with the index of the first-listed marker that starts there;
/// `None` when no marker occurs.
pub fn find_stop(language: &str, text: &str) -> (r: Option<(usize, usize)>)
    ensures
        match r {
            Some(pk) => is_winning_match(text@, markers_of(language@), pk.0 as int, pk.1 as int),
            None => marker_free(text@, markers_of(language@)),
        },
{
    let ghost ms = markers_of(language@);
    let markers = stop_markers(language);
    let n = text.unicode_len();
    let mut i: usize = 0;
    while i < n
        invariant
            i <= n,
            n == text@.len(),
            ms == markers_of(language@),
            markers@.len() == ms.len(),
            forall|k: int| 0 <= k < markers@.len() ==> #[trigger] markers@[k]@ == ms[k],
            forall|j: int| 0 <= j < i ==> !#[trigger] some_marker_at(text@, ms, j),
        decreases n - i,
    {
        let mut k: usize = 0;
        while k < markers.len()
            invariant
                i <= n,
                n == text@.len(),
                ms == markers_of(language@),
                markers@.len() == ms.len(),
                forall|k: int| 0 <= k < markers@.len() ==> #[trigger] markers@[k]@ == ms[k],
                forall|j: int| 0 <= j < i ==> !#[trigger] some_marker_at(text@, ms, j),
                forall|k2: int| 0 <= k2 < k ==> !#[trigger] occurs_at(text@, ms[k2], i as int),
            decreases markers.len() - k,
        {
            if occurs_at_exec(text, n, markers[k], i) {
                assert(occurs_at(text@, ms[k as int], i as int));
                assert(some_marker_at(text@, ms, i as int));
                assert(is_first_stop(text@, ms, i as int));
                return Some((i, k));
            }
            k = k + 1;
        }
        assert(!some_marker_at(text@, ms, i as int));
        i = i + 1;
    }
    proof {
        lemma_markers_nonempty(language@);
    }
    assert forall|j: int| !#[trigger] some_marker_at(text@, ms, j) by {}
    None
}

/// `text` cut just before the earliest stop marker of `language`. A text with
/// no marker, and every text of an unregistered language, is returned whole.
pub fn remove_stop_words<'a>(language: &str, text: &'a str) -> (r: &'a str)
    ensures
        r@ == filtered(language@, text@),
{
    match find_stop(language, text) {
        Some((p, _k)) => {
            proof {
                lemma_filtered_at_first_stop(language@, text@, p as int);
            }
            text.substring_char(0, p)
        },
        None => {
            proof {
                lemma_marker_free_passthrough(language@, text@);
            }
            text
        },
    }
}

} // verus!
