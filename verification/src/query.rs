//! Root query object: collection lookup and paginated collection listing.

use vstd::prelude::*;
use vstd::string::*;
use crate::collection::{Collection, CollectionV};
use crate::store::Store;

verus! {

/// The root of the query API.
#[derive(Clone, Copy, Debug)]
pub struct Query;

/// One page of a collection listing, with the effective (clamped) page
/// index and size echoed back.
#[derive(Debug)]
pub struct CollectionsPage {
    pub items: Vec<Collection>,
    pub num_pages: i32,
    pub num_items: i32,
    pub index: i32,
    pub size: i32,
}

/// The values of a collection sequence, in order.
pub open spec fn collections_view(s: Seq<Collection>) -> Seq<CollectionV> {
    s.map_values(|c: Collection| c@)
}

/// ASCII case folding, one character at a time.
pub open spec fn lower_char(c: char) -> char {
    if 'A' <= c <= 'Z' {
        ((c as u32) + 32) as char
    } else {
        c
    }
}

/// ASCII case folding over a character sequence.
pub open spec fn lower(s: Seq<char>) -> Seq<char> {
    s.map_values(|c: char| lower_char(c))
}

/// `[i, j)` spans one whole space-delimited word of `name`.
pub open spec fn is_word_at(name: Seq<char>, i: int, j: int) -> bool {
    &&& 0 <= i < j <= name.len()
    &&& (i == 0 || name[i - 1] == ' ')
    &&& (j == name.len() || name[j] == ' ')
    &&& forall|k: int| i <= k < j ==> name[k] != ' '
}

/// Word-level text match: some whole word of `name` equals `query` up to
/// ASCII case. This is the engine's model of the store's language-aware
/// full-text match; it is not a substring match.
pub open spec fn name_matches(name: Seq<char>, query: Seq<char>) -> bool {
    exists|i: int, j: int|
        #![trigger is_word_at(name, i, j)]
        is_word_at(name, i, j) && lower(name.subrange(i, j)) == lower(query)
}

/// Case-insensitive character comparison, by ASCII folding.
fn eq_ci(a: char, b: char) -> (r: bool)
    ensures
        r == (lower_char(a) == lower_char(b)),
{
    let al: u32 = if a >= 'A' && a <= 'Z' {
        (a as u32) + 32
    } else {
        a as u32
    };
    let bl: u32 = if b >= 'A' && b <= 'Z' {
        (b as u32) + 32
    } else {
        b as u32
    };
    al == bl
}

/// Compares the word of `name` spanning `[s, j)` against the whole of
/// `query`, case folded.
fn word_eq(name: &str, s: usize, j: usize, query: &str) -> (r: bool)
    requires
        s <= j <= name@.len(),
    ensures
        r == (lower(name@.subrange(s as int, j as int)) == lower(query@)),
{
    let qn = query.unicode_len();
    if j - s != qn {
        proof {
            assert(lower(name@.subrange(s as int, j as int)).len() == j - s);
            assert(lower(query@).len() == qn);
        }
        return false;
    }
    let mut t: usize = 0;
    while t < qn
        invariant
            qn == query@.len(),
            s <= j <= name@.len(),
            j - s == qn,
            t <= qn,
            forall|k: int|
                0 <= k < t ==> lower_char(name@.subrange(s as int, j as int)[k]) == lower_char(
                    query@[k],
                ),
        decreases qn - t,
    {
        let a = name.get_char(s + t);
        let b = query.get_char(t);
        proof {
            assert(name@.subrange(s as int, j as int)[t as int] == name@[s + t]);
        }
        if !eq_ci(a, b) {
            proof {
                assert(lower(name@.subrange(s as int, j as int))[t as int] == lower_char(
                    name@[s + t],
                ));
                assert(lower(query@)[t as int] == lower_char(query@[t as int]));
            }
            return false;
        }
        t = t + 1;
    }
    proof {
        assert(lower(name@.subrange(s as int, j as int)) =~= lower(query@));
    }
    true
}

/// Whether some whole word of `name` equals `query`, case folded.
pub fn word_match(name: &str, query: &str) -> (r: bool)
    ensures
        r == name_matches(name@, query@),
{
    let n = name.unicode_len();
    let mut i: usize = 0;
    while i < n
        invariant
            n == name@.len(),
            i <= n,
            i == 0 || i == n || (i - 1 < n && name@[i as int - 1] == ' '),
            forall|i0: int, j0: int|
                #![trigger is_word_at(name@, i0, j0)]
                is_word_at(name@, i0, j0) && j0 <= i ==> lower(name@.subrange(i0, j0)) != lower(
                    query@,
                ),
        decreases n - i,
    {
        if name.get_char(i) == ' ' {
            proof {
                assert forall|i0: int, j0: int|
                    is_word_at(name@, i0, j0) && j0 <= i + 1 implies lower(
                    name@.subrange(i0, j0),
                ) != lower(query@) by {
                    if is_word_at(name@, i0, j0) && j0 == i + 1 {
                        assert(name@[i as int] != ' ');
                    }
                }
            }
            i = i + 1;
        } else {
            let s = i;
            let mut j: usize = i + 1;
            while j < n && name.get_char(j) != ' '
                invariant
                    n == name@.len(),
                    s < j <= n,
                    forall|k: int| s <= k < j ==> name@[k] != ' ',
                    s == 0 || name@[s as int - 1] == ' ',
                decreases n - j,
            {
                j = j + 1;
            }
            proof {
                assert(is_word_at(name@, s as int, j as int));
            }
            if word_eq(name, s, j, query) {
                return true;
            }
            proof {
                assert forall|i0: int, j0: int|
                    is_word_at(name@, i0, j0) && j0 <= j + 1 implies lower(
                    name@.subrange(i0, j0),
                ) != lower(query@) by {
                    if is_word_at(name@, i0, j0) && j0 > s {
                        if j0 < j {
                            assert(name@[j0] != ' ');
                            assert(false);
                        } else if j0 == j || (j0 == j + 1 && j < n) {
                            if j0 == j + 1 {
                                assert(name@[j as int] != ' ');
                                assert(false);
                            }
                            if i0 < s {
                                if s > 0 {
                                    assert(name@[s as int - 1] == ' ');
                                    assert(false);
                                } else {
                                    assert(false);
                                }
                            } else if i0 > s {
                                assert(name@[i0 - 1] != ' ');
                                assert(false);
                            }
                            assert(i0 == s && j0 == j);
                        }
                    }
                }
            }
            if j < n {
                i = j + 1;
            } else {
                i = n;
                proof {
                    assert forall|i0: int, j0: int|
                        is_word_at(name@, i0, j0) && j0 <= n implies lower(
                        name@.subrange(i0, j0),
                    ) != lower(query@) by {}
                }
            }
        }
    }
    proof {
        assert forall|i0: int, j0: int|
            #![trigger is_word_at(name@, i0, j0)]
            is_word_at(name@, i0, j0) implies lower(name@.subrange(i0, j0)) != lower(query@) by {
            if is_word_at(name@, i0, j0) {
                assert(j0 <= n);
            }
        }
    }
    false
}

/// Whether a collection passes the listing filters: word-level name match
/// when a query is given, and inclusive creation-time bounds.
pub open spec fn collection_passes(
    c: CollectionV,
    name_query: Option<String>,
    created_after: Option<i64>,
    created_before: Option<i64>,
) -> bool {
    &&& match name_query {
        Some(q) => name_matches(c.name, q@),
        None => true,
    }
    &&& match created_after {
        Some(a) => c.created_at >= a,
        None => true,
    }
    &&& match created_before {
        Some(b) => c.created_at <= b,
        None => true,
    }
}

/// The collections passing the listing filters, in storage order.
pub open spec fn filtered_collections(
    cols: Seq<CollectionV>,
    name_query: Option<String>,
    created_after: Option<i64>,
    created_before: Option<i64>,
) -> Seq<CollectionV> {
    cols.filter(|c: CollectionV| collection_passes(c, name_query, created_after, created_before))
}

proof fn lemma_filtered_collections_take_step(
    cols: Seq<CollectionV>,
    name_query: Option<String>,
    created_after: Option<i64>,
    created_before: Option<i64>,
    i: int,
)
    requires
        0 <= i < cols.len(),
    ensures
        filtered_collections(cols.take(i + 1), name_query, created_after, created_before)
            == if collection_passes(cols[i], name_query, created_after, created_before) {
            filtered_collections(cols.take(i), name_query, created_after, created_before).push(
                cols[i],
            )
        } else {
            filtered_collections(cols.take(i), name_query, created_after, created_before)
        },
{
    let t = cols.take(i + 1);
    assert(t.drop_last() =~= cols.take(i));
    assert(t.last() == cols[i]);
    reveal(Seq::filter);
}

/// The requested page index clamped to at least 1; absent means 1.
pub open spec fn clamped_page(page: Option<i32>) -> int {
    let p: int = match page {
        Some(p) => p as int,
        None => 1,
    };
    if p < 1 {
        1
    } else {
        p
    }
}

/// The requested page size clamped into [1, 100]; absent means 10.
pub open spec fn clamped_size(page_size: Option<i32>) -> int {
    let s: int = match page_size {
        Some(s) => s as int,
        None => 10,
    };
    if s < 1 {
        1
    } else if s > 100 {
        100
    } else {
        s
    }
}

/// The first collection with the given name, if any.
pub open spec fn find_collection(cols: Seq<CollectionV>, name: Seq<char>) -> Option<CollectionV>
    decreases cols.len(),
{
    if cols.len() == 0 {
        None
    } else if cols[0].name == name {
        Some(cols[0])
    } else {
        find_collection(cols.skip(1), name)
    }
}

proof fn lemma_find_collection_step(cols: Seq<CollectionV>, name: Seq<char>, i: int)
    requires
        0 <= i < cols.len(),
        forall|k: int| 0 <= k < i ==> cols[k].name != name,
    ensures
        cols[i].name == name ==> find_collection(cols, name) == Some(cols[i]),
    decreases i,
{
    if i > 0 {
        lemma_find_collection_step(cols.skip(1), name, i - 1);
        assert(cols.skip(1)[i - 1] == cols[i]);
    }
}

proof fn lemma_find_collection_none(cols: Seq<CollectionV>, name: Seq<char>)
    requires
        forall|k: int| 0 <= k < cols.len() ==> cols[k].name != name,
    ensures
        find_collection(cols, name) is None,
    decreases cols.len(),
{
    if cols.len() > 0 {
        lemma_find_collection_none(cols.skip(1), name);
    }
}

impl Query {
    /// Adds two numbers; a trivial probe of the query layer.
    pub fn add(a: i32, b: i32) -> (r: i32)
        requires
            i32::MIN <= a + b <= i32::MAX,
        ensures
            r == a + b,
    {
        a + b
    }

    /// Lists collections page by page. The page index is clamped to at
    /// least 1 and the page size into [1, 100]; the name query asks for a
    /// word-level match; the creation-time bounds are inclusive. The page
    /// carries the slice of the filtered listing, the total item count and
    /// the rounded-up page count, with the effective index and size echoed
    /// back.
    pub fn collections(
        store: &Store,
        collection_name: Option<String>,
        page: Option<i32>,
        page_size: Option<i32>,
        created_after: Option<i64>,
        created_before: Option<i64>,
    ) -> (r: CollectionsPage)
        requires
            store.collections@.len() <= 0x7fff_ffff,
        ensures
            r.index == clamped_page(page),
            r.size == clamped_size(page_size),
            ({
                let filtered = filtered_collections(
                    collections_view(store.collections@),
                    collection_name,
                    created_after,
                    created_before,
                );
                let start = if (r.index - 1) * r.size <= filtered.len() as int {
                    (r.index - 1) * r.size
                } else {
                    filtered.len() as int
                };
                let end = if start + r.size <= filtered.len() as int {
                    start + r.size
                } else {
                    filtered.len() as int
                };
                &&& r.num_items == filtered.len()
                &&& r.num_pages == (filtered.len() as int + r.size - 1) / (r.size as int)
                &&& collections_view(r.items@) == filtered.subrange(start, end)
            }),
    {
        let page_num: i32 = match page {
            Some(p) => if p < 1 {
                1
            } else {
                p
            },
            None => 1,
        };
        let size: i32 = match page_size {
            Some(s) => if s < 1 {
                1
            } else if s > 100 {
                100
            } else {
                s
            },
            None => 10,
        };
        let ghost cols_v = collections_view(store.collections@);
        let ghost filtered = filtered_collections(
            cols_v,
            collection_name,
            created_after,
            created_before,
        );
        let n = store.collections.len();
        let mut matching: Vec<Collection> = Vec::new();
        let mut i: usize = 0;
        while i < n
            invariant
                n == store.collections@.len(),
                i <= n,
                cols_v == collections_view(store.collections@),
                cols_v.len() == n,
                matching@.len() <= i,
                collections_view(matching@) == filtered_collections(
                    cols_v.take(i as int),
                    collection_name,
                    created_after,
                    created_before,
                ),
            decreases n - i,
        {
            proof {
                lemma_filtered_collections_take_step(
                    cols_v,
                    collection_name,
                    created_after,
                    created_before,
                    i as int,
                );
                assert(cols_v[i as int] == store.collections@[i as int]@);
            }
            let c = &store.collections[i];
            let name_ok = match &collection_name {
                Some(q) => word_match(c.name.as_str(), q.as_str()),
                None => true,
            };
            let after_ok = match created_after {
                Some(a) => c.created_at >= a,
                None => true,
            };
            let before_ok = match created_before {
                Some(b) => c.created_at <= b,
                None => true,
            };
            if name_ok && after_ok && before_ok {
                let ghost before = matching@;
                matching.push(c.clone());
                proof {
                    assert(collections_view(matching@) =~= collections_view(before).push(
                        cols_v[i as int],
                    ));
                }
            }
            i = i + 1;
        }
        proof {
            assert(cols_v.take(n as int) =~= cols_v);
        }
        let num_items: i32 = matching.len() as i32;
        let pages64: i64 = ((num_items as i64) + (size as i64) - 1) / (size as i64);
        proof {
            if num_items >= 1 {
                assert((num_items as int + size as int - 1) / (size as int) <= num_items as int)
                    by (nonlinear_arith)
                    requires
                        num_items >= 1,
                        1 <= size <= 100,
                ;
            }
        }
        let num_pages: i32 = pages64 as i32;
        let len = matching.len();
        proof {
            assert(0 <= (page_num as i64 - 1) * (size as i64) <= 0x7fff_ffff_i64 * 100)
                by (nonlinear_arith)
                requires
                    1 <= page_num <= 0x7fff_ffff,
                    1 <= size <= 100,
            ;
        }
        let start64: i64 = ((page_num as i64) - 1) * (size as i64);
        let start: usize = if start64 <= len as i64 {
            start64 as usize
        } else {
            len
        };
        let end: usize = if start + (size as usize) <= len {
            start + (size as usize)
        } else {
            len
        };
        let mut items: Vec<Collection> = Vec::new();
        let mut k: usize = start;
        while k < end
            invariant
                start <= k <= end <= len,
                len == matching@.len(),
                collections_view(matching@) == filtered,
                collections_view(items@) == filtered.subrange(start as int, k as int),
            decreases end - k,
        {
            let ghost before = items@;
            items.push(matching[k].clone());
            proof {
                assert(collections_view(items@) =~= collections_view(before).push(
                    filtered[k as int],
                ));
                assert(filtered.subrange(start as int, k + 1) =~= filtered.subrange(
                    start as int,
                    k as int,
                ).push(filtered[k as int]));
            }
            k = k + 1;
        }
        CollectionsPage { items, num_pages, num_items, index: page_num, size }
    }

    /// Looks one collection up by exact name; names are expected unique,
    /// and the first match in storage order is returned.
    pub fn collection(store: &Store, name: String) -> (r: Option<Collection>)
        ensures
            match r {
                Some(c) => find_collection(collections_view(store.collections@), name@) == Some(
                    c@,
                ),
                None => find_collection(collections_view(store.collections@), name@) is None,
            },
    {
        let n = store.collections.len();
        let mut i: usize = 0;
        while i < n
            invariant
                n == store.collections@.len(),
                i <= n,
                forall|k: int| #![trigger collections_view(store.collections@).index(k)]
                    0 <= k < i ==> collections_view(store.collections@)[k].name != name@,
            decreases n - i,
        {
            proof {
                assert(collections_view(store.collections@)[i as int] == store.collections@[i as int]@);
            }
            let c = &store.collections[i];
            if crate::text::str_eq(c.name.as_str(), name.as_str()) {
                proof {
                    lemma_find_collection_step(
                        collections_view(store.collections@),
                        name@,
                        i as int,
                    );
                }
                return Some(c.clone());
            }
            i = i + 1;
        }
        proof {
            lemma_find_collection_none(collections_view(store.collections@), name@);
        }
        None
    }
}

} // verus!
