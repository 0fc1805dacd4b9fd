//! Font families and the incremental keyword filter over them.
//!
//! A `Family` groups the faces that share a family name. `FilteredFamilies`
//! owns the family list together with a lower-cased name per family and the
//! current lower-cased keyword, and maintains the matched set: the indices of
//! exactly those families whose lower-cased name contains the keyword as a
//! substring. `change_keyword` re-filters incrementally — narrowing keywords
//! only re-test the currently matched families, widening keywords only the
//! currently unmatched ones — yet the matched set it maintains always equals
//! the one a full rescan would produce.

use range_set_blaze::RangeSetBlaze;
use vstd::prelude::*;

verus! {

/// What `str::to_lowercase` returns for a given character sequence.
pub uninterp spec fn lower_of(s: Seq<char>) -> Seq<char>;

/// Relies on `str::to_lowercase`: the result depends on the characters alone;
/// an empty string stays empty.
#[verifier::external_body]
fn lowercase(s: &str) -> (r: (String, Vec<char>))
    ensures
        r.0@ == lower_of(s@),
        r.1@ == lower_of(s@),
        s@.len() == 0 ==> r.0@.len() == 0,
{
    let t = s.to_lowercase();
    let v = t.chars().collect();
    (t, v)
}

/// The set of family indices held by an `IndexSet`.
pub uninterp spec fn iset_of(s: IndexSet) -> Set<usize>;

/// A set of family indices, held in a range-compressed integer set.
#[verifier::external_body]
pub struct IndexSet {
    inner: RangeSetBlaze<usize>,
}

impl IndexSet {
    /// Relies on `RangeSetBlaze::new`: a fresh set is empty.
    #[verifier::external_body]
    pub fn new() -> (s: IndexSet)
        ensures
            iset_of(s) == Set::<usize>::empty(),
    {
        IndexSet { inner: RangeSetBlaze::new() }
    }

    /// Relies on `RangeSetBlaze::insert`: adds the value to the set and
    /// reports whether it was absent before.
    #[verifier::external_body]
    pub fn insert(&mut self, v: usize) -> (newly: bool)
        ensures
            iset_of(*final(self)) == iset_of(*old(self)).insert(v),
            newly == !iset_of(*old(self)).contains(v),
    {
        self.inner.insert(v)
    }

    /// Relies on `RangeSetBlaze::contains`.
    #[verifier::external_body]
    pub fn contains(&self, v: usize) -> (r: bool)
        ensures
            r == iset_of(*self).contains(v),
    {
        self.inner.contains(v)
    }

    /// Relies on `RangeSetBlaze::iter`: values come out in ascending order,
    /// one for each element of the set.
    #[verifier::external_body]
    pub fn to_vec(&self) -> (r: Vec<usize>)
        ensures
            forall|x: usize| #[trigger] r@.contains(x) <==> iset_of(*self).contains(x),
            forall|i: int, j: int| 0 <= i < j < r@.len() ==> r@[i] < r@[j],
    {
        self.inner.iter().collect()
    }
}

/// The keyword `k` occurs in `s` starting at position `i`.
pub open spec fn matches_at(s: Seq<char>, k: Seq<char>, i: int) -> bool {
    &&& 0 <= i
    &&& i + k.len() <= s.len()
    &&& s.subrange(i, i + k.len() as int) == k
}

/// The matching predicate: `s` contains `k` as a substring.
pub open spec fn contains_keyword(s: Seq<char>, k: Seq<char>) -> bool {
    exists|i: int| matches_at(s, k, i)
}

/// The matched set a full rescan produces: every family index whose
/// lower-cased name contains the keyword.
pub open spec fn matched_set(names: Seq<Seq<char>>, k: Seq<char>) -> Set<usize> {
    Set::new(|i: usize| i < names.len() && contains_keyword(names[i as int], k))
}

/// Whether `k` occurs in `s` starting at exactly position `i`.
fn matches_at_exec(s: &Vec<char>, k: &Vec<char>, i: usize) -> (r: bool)
    requires
        i + k@.len() <= s@.len(),
    ensures
        r == matches_at(s@, k@, i as int),
{
    let slen: usize = s.len();
    let klen: usize = k.len();
    let mut j: usize = 0;
    while j < klen
        invariant
            j <= klen,
            slen == s@.len(),
            klen == k@.len(),
            i + k@.len() <= s@.len(),
            forall|t: int| 0 <= t < j ==> s@[i + t] == k@[t],
        decreases klen - j,
    {
        if s[i + j] != k[j] {
            proof {
                assert(s@.subrange(i as int, i + k@.len()) != k@) by {
                    assert(s@.subrange(i as int, i + k@.len())[j as int] == s@[i + j]);
                }
            }
            return false;
        }
        j = j + 1;
    }
    proof {
        assert(s@.subrange(i as int, i + k@.len()) =~= k@);
    }
    true
}

/// Substring search, proved equivalent to the matching predicate.
pub fn contains_subseq(s: &Vec<char>, k: &Vec<char>) -> (r: bool)
    ensures
        r == contains_keyword(s@, k@),
{
    if k.len() == 0 {
        proof {
            assert(s@.subrange(0, 0) =~= k@);
            assert(matches_at(s@, k@, 0));
        }
        return true;
    }
    if k.len() > s.len() {
        proof {
            assert(forall|i: int| !matches_at(s@, k@, i));
        }
        return false;
    }
    let last: usize = s.len() - k.len();
    let mut i: usize = 0;
    while i <= last
        invariant
            last == s@.len() - k@.len(),
            last < usize::MAX,
            k@.len() >= 1,
            i <= last + 1,
            forall|t: int| 0 <= t < i ==> !matches_at(s@, k@, t),
        decreases last + 1 - i,
    {
        if matches_at_exec(s, k, i) {
            return true;
        }
        i = i + 1;
    }
    proof {
        assert(forall|t: int| matches_at(s@, k@, t) ==> 0 <= t <= last);
    }
    false
}

/// `a` is a prefix of `b`.
pub open spec fn is_prefix(a: Seq<char>, b: Seq<char>) -> bool {
    matches_at(b, a, 0)
}

/// `a` is a suffix of `b`.
pub open spec fn is_suffix(a: Seq<char>, b: Seq<char>) -> bool {
    matches_at(b, a, b.len() - a.len())
}

fn is_prefix_exec(a: &Vec<char>, b: &Vec<char>) -> (r: bool)
    ensures
        r == is_prefix(a@, b@),
{
    if a.len() > b.len() {
        return false;
    }
    matches_at_exec(b, a, 0)
}

fn is_suffix_exec(a: &Vec<char>, b: &Vec<char>) -> (r: bool)
    ensures
        r == is_suffix(a@, b@),
{
    if a.len() > b.len() {
        return false;
    }
    matches_at_exec(b, a, b.len() - a.len())
}

fn chars_eq(a: &Vec<char>, b: &Vec<char>) -> (r: bool)
    ensures
        r == (a@ == b@),
{
    if a.len() != b.len() {
        proof {
            assert(a@ != b@);
        }
        return false;
    }
    let mut i: usize = 0;
    while i < a.len()
        invariant
            a@.len() == b@.len(),
            i <= a@.len(),
            forall|t: int| 0 <= t < i ==> a@[t] == b@[t],
        decreases a@.len() - i,
    {
        if a[i] != b[i] {
            return false;
        }
        i = i + 1;
    }
    proof {
        assert(a@ =~= b@);
    }
    true
}

/// Substring containment is transitive: if `s` contains `mid` and `mid`
/// contains `k`, then `s` contains `k`.
pub proof fn lemma_contains_trans(s: Seq<char>, mid: Seq<char>, k: Seq<char>)
    requires
        contains_keyword(s, mid),
        contains_keyword(mid, k),
    ensures
        contains_keyword(s, k),
{
    let i = choose|i: int| matches_at(s, mid, i);
    let j = choose|j: int| matches_at(mid, k, j);
    assert(s.subrange(i + j, i + j + k.len()) =~= k) by {
        assert forall|t: int| 0 <= t < k.len() implies s.subrange(i + j, i + j + k.len())[t]
            == k[t] by {
            assert(s.subrange(i, i + mid.len())[j + t] == s[i + j + t]);
            assert(mid.subrange(j, j + k.len())[t] == mid[j + t]);
        }
    }
    assert(matches_at(s, k, i + j));
}

/// An empty keyword matches every family: the matched set is the full
/// range of family indices.
pub proof fn lemma_empty_keyword_matches_all(names: Seq<Seq<char>>)
    ensures
        matched_set(names, Seq::empty()) =~= Set::new(|i: usize| i < names.len()),
{
    assert forall|i: usize| i < names.len() implies matched_set(
        names,
        Seq::empty(),
    ).contains(i) by {
        assert(names[i as int].subrange(0, 0) =~= Seq::<char>::empty());
        assert(matches_at(names[i as int], Seq::empty(), 0));
    }
}

/// A prefix or suffix is in particular a contained substring.
pub proof fn lemma_affix_contains(a: Seq<char>, b: Seq<char>)
    requires
        is_prefix(a, b) || is_suffix(a, b),
    ensures
        contains_keyword(b, a),
{
    if is_prefix(a, b) {
        assert(matches_at(b, a, 0));
    } else {
        assert(matches_at(b, a, b.len() - a.len()));
    }
}


/// One renderable font face: the handle and metadata the preview needs.
///
/// `id` re-opens the face in the font database, `gid` is the pre-located
/// glyph id for the query character, and `index` the face index inside its
/// source file.
pub struct FaceInfo {
    pub id: usize,
    pub family: String,
    pub name: String,
    pub path: String,
    pub index: u32,
    pub gid: u16,
}

/// A font family: its name and the faces that belong to it.
pub struct Family {
    pub name: String,
    pub faces: Vec<FaceInfo>,
    pub default_name_width: usize,
}

impl Family {
    /// A family with no faces yet; its default display width is the
    /// byte length of its name.
    pub fn new(name: String) -> (f: Family)
        ensures
            f.name == name,
            f.faces@.len() == 0,
            f.default_name_width == vstd::utf8::encode_utf8(name@).len() as usize,
    {
        let width: usize = name.as_str().len();
        Family { name, faces: Vec::new(), default_name_width: width }
    }

    pub fn styles_count(&self) -> (n: usize)
        ensures
            n == self.faces@.len(),
    {
        self.faces.len()
    }

    pub fn add_face(&mut self, face: FaceInfo)
        ensures
            final(self).faces@ == old(self).faces@.push(face),
            final(self).name == old(self).name,
            final(self).default_name_width == old(self).default_name_width,
    {
        self.faces.push(face);
    }
}

/// The views of a list of lower-cased family names.
pub open spec fn names_view(names: Seq<Vec<char>>) -> Seq<Seq<char>> {
    Seq::new(names.len(), |i: int| names[i]@)
}

/// The family list with its live keyword filter.
pub struct FilteredFamilies {
    data: Vec<Family>,
    names: Vec<Vec<char>>,
    keyword: Vec<char>,
    keyword_str: String,
    filtered: IndexSet,
}

/// Scan every family name and collect the indices matching `k`.
fn scan_all(names: &Vec<Vec<char>>, k: &Vec<char>) -> (s: IndexSet)
    ensures
        iset_of(s) == matched_set(names_view(names@), k@),
{
    let mut s = IndexSet::new();
    let n: usize = names.len();
    let mut i: usize = 0;
    while i < n
        invariant
            n == names@.len(),
            i <= n,
            iset_of(s) == Set::new(
                |x: usize| x < i && contains_keyword(names_view(names@)[x as int], k@),
            ),
        decreases n - i,
    {
        let hit = contains_subseq(&names[i], k);
        proof {
            assert(names_view(names@)[i as int] == names@[i as int]@);
        }
        if hit {
            let _ = s.insert(i);
        }
        proof {
            let prev = Set::new(
                |x: usize| x < i && contains_keyword(names_view(names@)[x as int], k@),
            );
            let next = Set::new(
                |x: usize| x < i + 1 && contains_keyword(names_view(names@)[x as int], k@),
            );
            if hit {
                assert(iset_of(s) =~= next);
            } else {
                assert(prev =~= next);
            }
        }
        i = i + 1;
    }
    proof {
        assert(iset_of(s) =~= matched_set(names_view(names@), k@));
    }
    s
}

impl FilteredFamilies {
    /// The owned family list.
    pub closed spec fn spec_data(self) -> Seq<Family> {
        self.data@
    }

    /// The lower-cased name of each family, in family order.
    pub closed spec fn spec_names(self) -> Seq<Seq<char>> {
        names_view(self.names@)
    }

    /// The current lower-cased keyword.
    pub closed spec fn spec_keyword(self) -> Seq<char> {
        self.keyword@
    }

    /// The currently matched family indices.
    pub closed spec fn spec_matched(self) -> Set<usize> {
        iset_of(self.filtered)
    }

    /// One lower-cased name per family, and the matched set equal to what a
    /// full rescan with the current keyword yields.
    pub closed spec fn wf(self) -> bool {
        &&& self.names@.len() == self.data@.len()
        &&& self.keyword_str@ == self.keyword@
        &&& iset_of(self.filtered) == matched_set(names_view(self.names@), self.keyword@)
    }

    /// The dimensions that `wf` guarantees, stated for callers.
    pub proof fn lemma_wf_dimensions(self)
        requires
            self.wf(),
        ensures
            self.spec_names().len() == self.spec_data().len(),
    {
    }

    /// Law: however the matched set was maintained incrementally, it equals
    /// the set a full rescan from scratch with the current keyword produces.
    pub proof fn lemma_matched_equals_rescan(self)
        requires
            self.wf(),
        ensures
            self.spec_matched() == matched_set(self.spec_names(), self.spec_keyword()),
    {
    }

    /// Build the filter: lower-case every family name and the keyword, then
    /// scan the whole catalog once.
    pub fn new(families: Vec<Family>, keyword: String) -> (r: FilteredFamilies)
        ensures
            r.wf(),
            r.spec_data() == families@,
            r.spec_keyword() == lower_of(keyword@),
            r.spec_names().len() == families@.len(),
            forall|i: int|
                0 <= i < families@.len() ==> r.spec_names()[i] == lower_of(families@[i].name@),
    {
        let (kstr, kchars) = lowercase(keyword.as_str());
        let mut names: Vec<Vec<char>> = Vec::new();
        let n: usize = families.len();
        let mut i: usize = 0;
        while i < n
            invariant
                n == families@.len(),
                i <= n,
                names@.len() == i,
                forall|t: int| 0 <= t < i ==> names@[t]@ == lower_of(families@[t].name@),
            decreases n - i,
        {
            let (_lower_str, lower_chars) = lowercase(families[i].name.as_str());
            names.push(lower_chars);
            i = i + 1;
        }
        let filtered = scan_all(&names, &kchars);
        let r = FilteredFamilies { data: families, names, keyword: kchars, keyword_str: kstr, filtered };
        proof {
            assert forall|t: int| 0 <= t < families@.len() implies r.spec_names()[t] == lower_of(
                families@[t].name@,
            ) by {
                assert(names_view(r.names@)[t] == r.names@[t]@);
            }
        }
        r
    }

    pub fn is_empty(&self) -> (r: bool)
        ensures
            r == (self.spec_data().len() == 0),
    {
        self.data.len() == 0
    }

    pub fn data(&self) -> (r: &Vec<Family>)
        ensures
            r@ == self.spec_data(),
    {
        &self.data
    }

    pub fn keyword(&self) -> (r: &String)
        requires
            self.wf(),
        ensures
            r@ == self.spec_keyword(),
    {
        &self.keyword_str
    }

    /// The matched family indices, ascending.
    pub fn matched_indices(&self) -> (r: Vec<usize>)
        ensures
            forall|x: usize| #[trigger] r@.contains(x) <==> self.spec_matched().contains(x),
            forall|i: int, j: int| 0 <= i < j < r@.len() ==> r@[i] < r@[j],
    {
        self.filtered.to_vec()
    }

    /// The matched families themselves, ascending by family index.
    pub fn matched(&self) -> (r: Vec<&Family>)
        requires
            self.wf(),
        ensures
            exists|idxs: Seq<usize>|
                {
                    &&& forall|a: int, b: int| 0 <= a < b < idxs.len() ==> idxs[a] < idxs[b]
                    &&& forall|x: usize|
                        (#[trigger] idxs.contains(x)) <==> self.spec_matched().contains(x)
                    &&& r@.len() == #[trigger] idxs.len()
                    &&& forall|t: int|
                        0 <= t < idxs.len() ==> *(#[trigger] r@[t]) == self.spec_data()[
                            idxs[t] as int
                        ]
                },
    {
        let idxs: Vec<usize> = self.filtered.to_vec();
        let mut r: Vec<&Family> = Vec::new();
        let n: usize = idxs.len();
        let mut t: usize = 0;
        while t < n
            invariant
                self.wf(),
                n == idxs@.len(),
                t <= n,
                forall|x: usize|
                    (#[trigger] idxs@.contains(x)) <==> self.spec_matched().contains(x),
                forall|a: int, b: int| 0 <= a < b < n ==> idxs@[a] < idxs@[b],
                r@.len() == t,
                forall|u: int|
                    0 <= u < t ==> *(#[trigger] r@[u]) == self.spec_data()[idxs@[u] as int],
            decreases n - t,
        {
            let fam: usize = idxs[t];
            proof {
                self.lemma_matched_equals_rescan();
                self.lemma_wf_dimensions();
                assert(idxs@.contains(fam));
                assert(self.spec_matched().contains(fam));
                assert(fam < self.spec_names().len());
            }
            r.push(&self.data[fam]);
            t = t + 1;
        }
        r
    }

    /// Re-filter for a new keyword. A keyword equal to the current one is a
    /// no-op; a narrowing edit (the old keyword is a prefix or suffix of the
    /// new) re-tests only the matched families; a widening edit (the new
    /// keyword is a prefix or suffix of the old) re-tests only the unmatched
    /// ones; anything else rescans the whole catalog. In every case the
    /// matched set ends up equal to a full rescan's.
    pub fn change_keyword(&mut self, keyword: &str)
        requires
            old(self).wf(),
        ensures
            final(self).wf(),
            final(self).spec_data() == old(self).spec_data(),
            final(self).spec_names() == old(self).spec_names(),
            final(self).spec_keyword() == lower_of(keyword@),
            lower_of(keyword@) == old(self).spec_keyword() ==> *final(self) == *old(self),
    {
        let (kstr, kchars) = lowercase(keyword);
        if chars_eq(&kchars, &self.keyword) {
            return;
        }
        let ghost old_kw = self.keyword@;
        let ghost old_set = iset_of(self.filtered);
        let ghost namesv = names_view(self.names@);
        let narrowing = is_prefix_exec(&self.keyword, &kchars) || is_suffix_exec(
            &self.keyword,
            &kchars,
        );
        let loosening = is_prefix_exec(&kchars, &self.keyword) || is_suffix_exec(
            &kchars,
            &self.keyword,
        );
        if narrowing {
            // The new keyword contains the old one, so matches can only be
            // lost: re-test the currently matched families alone.
            let matched: Vec<usize> = self.filtered.to_vec();
            let mut fresh = IndexSet::new();
            let m: usize = matched.len();
            let mut i: usize = 0;
            while i < m
                invariant
                    self == old(self),
                    old(self).wf(),
                    m == matched@.len(),
                    i <= m,
                    namesv == names_view(self.names@),
                    old_set == iset_of(self.filtered),
                    old_set == matched_set(namesv, old_kw),
                    forall|x: usize| #[trigger] matched@.contains(x) <==> old_set.contains(x),
                    forall|a: int, b: int| 0 <= a < b < m ==> matched@[a] < matched@[b],
                    forall|x: usize|
                        #[trigger] iset_of(fresh).contains(x) <==> (matched@.subrange(
                            0,
                            i as int,
                        ).contains(x) && contains_keyword(namesv[x as int], kchars@)),
                decreases m - i,
            {
                let idx: usize = matched[i];
                proof {
                    assert(matched@.contains(idx));
                    assert(old_set.contains(idx));
                    assert(matched_set(namesv, old_kw).contains(idx));
                    assert(idx < self.names@.len());
                    assert(namesv[idx as int] == self.names@[idx as int]@);
                }
                let hit = contains_subseq(&self.names[idx], &kchars);
                if hit {
                    let _ = fresh.insert(idx);
                }
                proof {
                    let pre = matched@.subrange(0, i as int);
                    let post = matched@.subrange(0, i + 1);
                    assert(post =~= pre.push(idx));
                    assert forall|x: usize| #[trigger] post.contains(x) implies (pre.contains(x)
                        || x == idx) by {
                        let w = choose|w: int| 0 <= w < post.len() && post[w] == x;
                        if w < pre.len() {
                            assert(pre[w] == x);
                        }
                    }
                    assert forall|x: usize| #[trigger] iset_of(fresh).contains(x) implies (
                    post.contains(x) && contains_keyword(namesv[x as int], kchars@)) by {
                        if x != idx {
                            assert(pre.contains(x));
                            let w = choose|w: int| 0 <= w < pre.len() && pre[w] == x;
                            assert(post[w] == x);
                        } else {
                            assert(post[i as int] == idx);
                        }
                    }
                    assert forall|x: usize|
                        post.contains(x) && contains_keyword(
                            namesv[x as int],
                            kchars@,
                        ) implies #[trigger] iset_of(fresh).contains(x) by {}
                }
                i = i + 1;
            }
            self.keyword = kchars;
            self.keyword_str = kstr;
            self.filtered = fresh;
            proof {
                lemma_affix_contains(old_kw, kchars@);
                assert forall|x: usize| #[trigger] matched_set(namesv, kchars@).contains(
                    x,
                ) implies iset_of(self.filtered).contains(x) by {
                    lemma_contains_trans(namesv[x as int], kchars@, old_kw);
                    assert(matched_set(namesv, old_kw).contains(x));
                    assert(matched@.contains(x));
                    let w = choose|w: int| 0 <= w < matched@.len() && matched@[w] == x;
                    assert(matched@.subrange(0, m as int) =~= matched@);
                }
                assert forall|x: usize| #[trigger] iset_of(self.filtered).contains(x) implies
                    matched_set(namesv, kchars@).contains(x) by {
                    assert(contains_keyword(namesv[x as int], kchars@));
                    assert(matched@.subrange(0, m as int) =~= matched@);
                    assert(old_set.contains(x));
                    assert(matched_set(namesv, old_kw).contains(x));
                }
                assert(iset_of(self.filtered) =~= matched_set(namesv, kchars@));
            }
        } else if loosening {
            // The old keyword contains the new one, so every current match
            // stays: re-test the currently unmatched families alone.
            self.keyword = kchars;
            self.keyword_str = kstr;
            let n: usize = self.data.len();
            let mut i: usize = 0;
            while i < n
                invariant
                    n == self.data@.len(),
                    i <= n,
                    self.data == old(self).data,
                    self.names == old(self).names,
                    self.keyword@ == kchars@,
                    self.keyword_str@ == kstr@,
                    kstr@ == kchars@,
                    n == self.names@.len(),
                    namesv == names_view(self.names@),
                    old_set == matched_set(namesv, old_kw),
                    iset_of(self.filtered) == old_set.union(
                        Set::new(
                            |x: usize|
                                x < i && !old_set.contains(x) && contains_keyword(
                                    namesv[x as int],
                                    kchars@,
                                ),
                        ),
                    ),
                decreases n - i,
            {
                if !self.filtered.contains(i) {
                    proof {
                        assert(namesv[i as int] == self.names@[i as int]@);
                    }
                    let hit = contains_subseq(&self.names[i], &self.keyword);
                    if hit {
                        let _ = self.filtered.insert(i);
                    }
                }
                proof {
                    let prev = old_set.union(
                        Set::new(
                            |x: usize|
                                x < i && !old_set.contains(x) && contains_keyword(
                                    namesv[x as int],
                                    kchars@,
                                ),
                        ),
                    );
                    let next = old_set.union(
                        Set::new(
                            |x: usize|
                                x < i + 1 && !old_set.contains(x) && contains_keyword(
                                    namesv[x as int],
                                    kchars@,
                                ),
                        ),
                    );
                    assert(iset_of(self.filtered) =~= next);
                }
                i = i + 1;
            }
            proof {
                lemma_affix_contains(kchars@, old_kw);
                assert forall|x: usize| #[trigger] iset_of(self.filtered).contains(x) implies
                    matched_set(namesv, kchars@).contains(x) by {
                    if old_set.contains(x) {
                        assert(matched_set(namesv, old_kw).contains(x));
                        lemma_contains_trans(namesv[x as int], old_kw, kchars@);
                    }
                }
                assert forall|x: usize| #[trigger] matched_set(namesv, kchars@).contains(
                    x,
                ) implies iset_of(self.filtered).contains(x) by {}
                assert(iset_of(self.filtered) =~= matched_set(namesv, kchars@));
            }
        } else {
            // The keywords are unrelated: rescan the whole catalog.
            self.keyword = kchars;
            self.keyword_str = kstr;
            self.filtered = scan_all(&self.names, &self.keyword);
        }
    }
}

} // verus!
