use celes::LookupTable;
use vstd::prelude::*;
use vstd::seq_lib::group_seq_properties;

verus! {

broadcast use group_seq_properties;

/// The longest key the ternary search tree is fed; its operations recurse
/// once per symbol of the key, so unbounded keys are not handed to it.
pub const MAX_KEY_LEN: usize = 2000;

/// One country of the ISO 3166-1 table, reduced to the plain values the
/// search reads: its codes, its official name, and its aliases.
#[derive(Debug)]
pub struct Country {
    /// The three digit code assigned to the country.
    pub code: String,
    /// The integer value of `code`.
    pub value: u64,
    /// The two letter (alpha-2) code assigned to the country.
    pub alpha2: String,
    /// The three letter (alpha-3) code assigned to the country.
    pub alpha3: String,
    /// The official state name of the country.
    pub long_name: String,
    /// Common aliases associated with the country.
    pub aliases: Vec<String>,
}

/// The mathematical image of a `Country`.
#[verifier::ext_equal]
pub ghost struct CountryView {
    pub code: Seq<char>,
    pub value: u64,
    pub alpha2: Seq<char>,
    pub alpha3: Seq<char>,
    pub long_name: Seq<char>,
    pub aliases: Seq<Seq<char>>,
}

impl View for Country {
    type V = CountryView;

    open spec fn view(&self) -> CountryView {
        CountryView {
            code: self.code@,
            value: self.value,
            alpha2: self.alpha2@,
            alpha3: self.alpha3@,
            long_name: self.long_name@,
            aliases: self.aliases.deep_view(),
        }
    }
}

impl Clone for Country {
    fn clone(&self) -> (r: Country)
        ensures
            r@ == self@,
    {
        let r = Country {
            code: self.code.clone(),
            value: self.value,
            alpha2: self.alpha2.clone(),
            alpha3: self.alpha3.clone(),
            long_name: self.long_name.clone(),
            aliases: clone_strings(&self.aliases),
        };
        proof {
            assert(r@ =~= self@);
        }
        r
    }
}

/// An element-wise copy of a list of strings.
fn clone_strings(v: &Vec<String>) -> (r: Vec<String>)
    ensures
        r.deep_view() == v.deep_view(),
{
    let mut r: Vec<String> = Vec::new();
    let mut i: usize = 0;
    while i < v.len()
        invariant
            i <= v@.len(),
            r@.len() == i as int,
            forall|k: int| 0 <= k < i ==> r@[k]@ == v@[k]@,
        decreases v@.len() - i,
    {
        r.push(v[i].clone());
        i = i + 1;
    }
    proof {
        assert(r.deep_view() =~= v.deep_view());
    }
    r
}

/// The ways of referring to a country, in the order the index uses them:
/// numeric code, alpha-2 code, alpha-3 code, official name, then aliases.
pub open spec fn country_names(c: CountryView) -> Seq<Seq<char>> {
    seq![c.code, c.alpha2, c.alpha3, c.long_name] + c.aliases
}

impl Country {
    /// The ways of referring to this country, in index order.
    pub fn names(&self) -> (r: Vec<String>)
        ensures
            r.deep_view() == country_names(self@),
    {
        let mut r: Vec<String> = Vec::new();
        r.push(self.code.clone());
        r.push(self.alpha2.clone());
        r.push(self.alpha3.clone());
        r.push(self.long_name.clone());
        let mut i: usize = 0;
        proof {
            assert(forall|k: int| 0 <= k < 4 ==> r@[k]@ == country_names(self@)[k]);
        }
        while i < self.aliases.len()
            invariant
                i <= self.aliases@.len(),
                r@.len() == 4 + i as int,
                country_names(self@).len() == 4 + self.aliases@.len(),
                forall|k: int| 0 <= k < r@.len() ==> r@[k]@ == country_names(self@)[k],
            decreases self.aliases@.len() - i,
        {
            r.push(self.aliases[i].clone());
            proof {
                assert(r@[4 + i as int]@ == country_names(self@)[4 + i as int]);
            }
            i = i + 1;
        }
        proof {
            assert(r.deep_view() =~= country_names(self@));
        }
        r
    }
}

impl DeepView for Country {
    type V = CountryView;

    open spec fn deep_view(&self) -> CountryView {
        self.view()
    }
}

#[verifier::external_type_specification]
#[verifier::external_body]
#[verifier::reject_recursive_types(Value)]
pub struct ExTSTMap<Value>(tst::TSTMap<Value>);

/// The ternary search tree the index keeps: each key holds the list of the
/// indices of the countries that the key refers to.
pub type IndexTree = tst::TSTMap<Vec<usize>>;

/// What the ternary search tree holds: for each key, the list of values
/// pushed at that key, in push order.
pub uninterp spec fn tst_entries(m: IndexTree) -> Map<Seq<char>, Seq<usize>>;

/// Relies on tst::TSTMap::new: a newly constructed tree holds nothing.
#[verifier::external_body]
fn tst_new() -> (r: IndexTree)
    ensures
        forall|k: Seq<char>| !(#[trigger] tst_entries(r).contains_key(k)),
{
    tst::TSTMap::new()
}

/// Relies on tst::TSTMap::entry and tst::Entry::or_insert: appends `index`
/// to the list of values at `key`, starting from an empty list where the
/// key is not yet present. The tree panics on an empty key and recurses
/// once per symbol of the key, so keys are kept non-empty and bounded.
#[verifier::external_body]
fn tst_push_at(m: &mut IndexTree, key: &str, index: usize)
    requires
        1 <= key@.len() <= MAX_KEY_LEN,
    ensures
        tst_entries(*final(m)) == tst_entries(*old(m)).insert(
            key@,
            (if tst_entries(*old(m)).contains_key(key@) {
                tst_entries(*old(m))[key@]
            } else {
                Seq::empty()
            }).push(index),
        ),
{
    m.entry(key).or_insert(Vec::new()).push(index);
}

/// Relies on tst::TSTMap::prefix_iter: iterates, each exactly once, over
/// the entries whose key starts with the given non-empty prefix. The
/// traversal recurses once per symbol of the prefix, so the prefix is kept
/// bounded.
#[verifier::external_body]
fn tst_entries_with_prefix(m: &IndexTree, prefix: &str) -> (r: Vec<(String, Vec<usize>)>)
    requires
        1 <= prefix@.len() <= MAX_KEY_LEN,
    ensures
        forall|j: int|
            0 <= j < r@.len() ==> tst_entries(*m).contains_key((#[trigger] r@[j]).0@)
                && prefix@.is_prefix_of(r@[j].0@) && r@[j].1@ == tst_entries(*m)[r@[j].0@],
        forall|k: Seq<char>|
            #[trigger] tst_entries(*m).contains_key(k) && prefix@.is_prefix_of(k) ==> exists|j: int|
                0 <= j < r@.len() && (#[trigger] r@[j]).0@ == k,
{
    m.prefix_iter(prefix).map(|(k, v)| (k, v.clone())).collect()
}

/// What `str::to_lowercase` returns for the given characters.
pub uninterp spec fn lowercase_of(s: Seq<char>) -> Seq<char>;

/// Relies on str::to_lowercase: the lowercase equivalent of the string,
/// determined by its characters alone.
#[verifier::external_body]
fn to_lowercase_string(s: &str) -> (r: String)
    ensures
        r@ == lowercase_of(s@),
{
    s.to_lowercase()
}

/// Relies on celes::Country::get_countries: the full ISO 3166-1 table of
/// 250 countries, each converted field for field into this crate's
/// `Country`.
#[verifier::external_body]
fn fetch_countries() -> (r: Vec<Country>)
    ensures
        r@.len() == 250,
{
    celes::Country::get_countries()
        .iter()
        .map(|c| Country {
            code: c.code.to_string(),
            value: c.value as u64,
            alpha2: c.alpha2.to_string(),
            alpha3: c.alpha3.to_string(),
            long_name: c.long_name.to_string(),
            aliases: c.aliases.iter().map(|a| a.to_string()).collect(),
        })
        .collect()
}

/// `name` fits the tree's key bounds once lowercased.
pub open spec fn fits_index_key(name: Seq<char>) -> bool {
    1 <= lowercase_of(name).len() <= MAX_KEY_LEN as int
}

/// The index `m` lists country `i` under the lowercased `name`.
pub open spec fn indexed_under(m: Map<Seq<char>, Seq<usize>>, name: Seq<char>, i: usize) -> bool {
    m.contains_key(lowercase_of(name)) && m[lowercase_of(name)].contains(i)
}

/// Key `k` is the lowercasing of one of the names of country `i` of the
/// table `cs`.
pub open spec fn key_names_country(cs: Seq<CountryView>, k: Seq<char>, i: usize) -> bool {
    exists|j: int|
        0 <= j < country_names(cs[i as int]).len() && k == lowercase_of(
            #[trigger] country_names(cs[i as int])[j],
        )
}

/// The index `m` covers, of the table `cs`, every fitting name of the
/// countries before `hi`, and the first `hj` names of country `hi` itself.
pub open spec fn complete_below(
    m: Map<Seq<char>, Seq<usize>>,
    cs: Seq<CountryView>,
    hi: int,
    hj: int,
) -> bool {
    forall|i: int, j: int|
        0 <= i < cs.len() && 0 <= j < country_names(cs[i]).len() && (i < hi || (i == hi && j < hj))
            && fits_index_key(#[trigger] country_names(cs[i])[j]) ==> indexed_under(
            m,
            country_names(cs[i])[j],
            i as usize,
        )
}

/// Every key of the index `m` fits the key bounds, and every position it
/// lists belongs to a country of `cs` one of whose names lowercases to that
/// key.
pub open spec fn sound_index(m: Map<Seq<char>, Seq<usize>>, cs: Seq<CountryView>) -> bool {
    &&& forall|k: Seq<char>| #[trigger] m.contains_key(k) ==> 1 <= k.len() <= MAX_KEY_LEN as int
    &&& forall|k: Seq<char>, e: int|
        m.contains_key(k) && 0 <= e < m[k].len() ==> ((#[trigger] m[k][e]) as int) < cs.len()
            && key_names_country(cs, k, m[k][e])
}

/// The index `m` is exactly the index of the table `cs`: complete for every
/// fitting name, and sound in that every entry comes from a name.
pub open spec fn proper_index(m: Map<Seq<char>, Seq<usize>>, cs: Seq<CountryView>) -> bool {
    complete_below(m, cs, cs.len() as int, 0) && sound_index(m, cs)
}

/// Pushing an element keeps the ones a list contains and adds the new one.
proof fn lemma_push_contains(s: Seq<usize>, x: usize, y: usize)
    ensures
        s.push(y).contains(x) <==> (s.contains(x) || x == y),
{
    if s.contains(x) {
        let w = choose|a: int| 0 <= a < s.len() && s[a] == x;
        assert(s.push(y)[w] == x);
    }
    if x == y {
        assert(s.push(y)[s.len() as int] == x);
    }
    if s.push(y).contains(x) && x != y && !s.contains(x) {
        let w = choose|a: int| 0 <= a < s.push(y).len() && s.push(y)[a] == x;
        assert(s[w] == x);
    }
}

/// Looks countries up by prefixes of the ways of referring to them. Each of
/// a country's names is keyed, lowercased, in a ternary search tree, mapped
/// to the positions of the countries that carry the name.
pub struct CountrySearch {
    /// lowercased names of the countries, each holding the positions of the
    /// countries it refers to
    prefixes: IndexTree,
    entries: Vec<Country>,
}

impl CountrySearch {
    #[verifier::type_invariant]
    spec fn inv(self) -> bool {
        sound_index(tst_entries(self.prefixes), self.entries.deep_view())
    }

    /// The countries of the table, in table order.
    pub closed spec fn countries(self) -> Seq<CountryView> {
        self.entries.deep_view()
    }

    /// The index: each key, with the positions of the countries it names.
    pub closed spec fn index(self) -> Map<Seq<char>, Seq<usize>> {
        tst_entries(self.prefixes)
    }
}

impl Default for CountrySearch {
    /// Builds the search over the full ISO 3166-1 table: every way of
    /// referring to a country whose lowercased form fits the key bounds is
    /// keyed to that country's position.
    fn default() -> (s: CountrySearch)
        ensures
            s.countries().len() == 250,
            proper_index(s.index(), s.countries()),
    {
        let entries: Vec<Country> = fetch_countries();
        let ghost cs = entries.deep_view();
        let mut prefixes: IndexTree = tst_new();
        let mut i: usize = 0;
        while i < entries.len()
            invariant
                i <= entries@.len(),
                cs == entries.deep_view(),
                cs.len() == entries@.len(),
                sound_index(tst_entries(prefixes), cs),
                complete_below(tst_entries(prefixes), cs, i as int, 0),
            decreases entries@.len() - i,
        {
            let names: Vec<String> = entries[i].names();
            proof {
                assert(cs[i as int] == entries@[i as int]@);
            }
            let mut j: usize = 0;
            while j < names.len()
                invariant
                    i < entries@.len(),
                    j <= names@.len(),
                    cs == entries.deep_view(),
                    cs.len() == entries@.len(),
                    names.deep_view() == country_names(cs[i as int]),
                    names@.len() == country_names(cs[i as int]).len(),
                    sound_index(tst_entries(prefixes), cs),
                    complete_below(tst_entries(prefixes), cs, i as int, j as int),
                decreases names@.len() - j,
            {
                let ghost m0 = tst_entries(prefixes);
                let ghost name = country_names(cs[i as int])[j as int];
                let low: String = to_lowercase_string(names[j].as_str());
                proof {
                    assert(names@[j as int]@ == names.deep_view()[j as int]);
                    assert(low@ == lowercase_of(name));
                }
                let n: usize = low.as_str().unicode_len();
                if 1 <= n && n <= MAX_KEY_LEN {
                    tst_push_at(&mut prefixes, low.as_str(), i);
                    proof {
                        let m1 = tst_entries(prefixes);
                        let k0 = low@;
                        let vals = if m0.contains_key(k0) {
                            m0[k0]
                        } else {
                            Seq::<usize>::empty()
                        };
                        assert(m1 == m0.insert(k0, vals.push(i)));
                        assert forall|x: usize| #[trigger]
                            m1[k0].contains(x) <==> (vals.contains(x) || x == i) by {
                            lemma_push_contains(vals, x, i);
                        }
                        // soundness is kept: the new entry comes from name `j`
                        // of country `i`, the old ones carry over
                        assert forall|k: Seq<char>, e: int|
                            m1.contains_key(k) && 0 <= e < m1[k].len() implies ((#[trigger] m1[k][e])
                            as int) < cs.len() && key_names_country(cs, k, m1[k][e]) by {
                            if k == k0 {
                                if e < vals.len() {
                                    assert(m0.contains_key(k0));
                                    assert(m0[k0][e] == m1[k0][e]);
                                } else {
                                    assert(m1[k0][e] == i);
                                    assert(country_names(cs[i as int])[j as int] == name);
                                    assert(k0 == lowercase_of(name));
                                }
                            } else {
                                assert(m0.contains_key(k) && m0[k] == m1[k]);
                            }
                        }
                        // completeness moves one name forward: the processed
                        // pairs stay indexed, and name `j` now is
                        assert forall|i2: int, j2: int|
                            0 <= i2 < cs.len() && 0 <= j2 < country_names(cs[i2]).len() && (i2
                                < i as int || (i2 == i as int && j2 < j as int + 1))
                                && fits_index_key(
                                #[trigger] country_names(cs[i2])[j2],
                            ) implies indexed_under(
                            m1,
                            country_names(cs[i2])[j2],
                            i2 as usize,
                        ) by {
                            let nm = country_names(cs[i2])[j2];
                            if i2 == i as int && j2 == j as int {
                                assert(m1[k0][vals.len() as int] == i);
                                assert(m1[k0].contains(i));
                            } else {
                                assert(indexed_under(m0, nm, i2 as usize));
                                if lowercase_of(nm) == k0 {
                                    lemma_push_contains(vals, i2 as usize, i);
                                } else {
                                    assert(m1[lowercase_of(nm)] == m0[lowercase_of(nm)]);
                                }
                            }
                        }
                    }
                } else {
                    proof {
                        // the name does not fit the key bounds, so nothing
                        // is owed for it
                        assert(lowercase_of(name).len() == low@.len());
                        assert(!fits_index_key(name));
                    }
                }
                j = j + 1;
            }
            i = i + 1;
        }
        let s = CountrySearch { prefixes, entries };
        proof {
            assert(s.countries() == cs);
        }
        s
    }
}

/// Country `i` matches the query `q`: some key of the index carries `i`
/// and starts with the lowercased query, which must be non-empty — an
/// empty query finds nothing.
pub open spec fn query_matches(m: Map<Seq<char>, Seq<usize>>, q: Seq<char>, i: usize) -> bool {
    &&& lowercase_of(q).len() >= 1
    &&& exists|k: Seq<char>|
        #[trigger] m.contains_key(k) && lowercase_of(q).is_prefix_of(k) && m[k].contains(i)
}

/// The elements stand in strictly ascending order.
pub open spec fn strictly_increasing(ids: Seq<usize>) -> bool {
    forall|a: int, b: int| 0 <= a < b < ids.len() ==> ids[a] < ids[b]
}

/// What `prefix_lookup` hands back for query `q` against index `m` and
/// table `cs`: the matching positions `ids`, ascending and each only once,
/// and the countries at those positions, in that order.
pub open spec fn lookup_result(
    m: Map<Seq<char>, Seq<usize>>,
    cs: Seq<CountryView>,
    q: Seq<char>,
    ids: Seq<usize>,
    rs: Seq<CountryView>,
) -> bool {
    &&& strictly_increasing(ids)
    &&& forall|y: usize| #[trigger] ids.contains(y) <==> query_matches(m, q, y)
    &&& forall|b: int| 0 <= b < ids.len() ==> ((#[trigger] ids[b]) as int) < cs.len()
    &&& rs.len() == ids.len()
    &&& forall|b: int| 0 <= b < ids.len() ==> rs[b] == cs[(#[trigger] ids[b]) as int]
}

/// Law: against a properly built index, a country matches a query exactly
/// when the lowercased query is non-empty and is a prefix of the lowercased
/// form of one of the country's names that fits the key bounds.
pub proof fn lemma_query_matches_names(
    m: Map<Seq<char>, Seq<usize>>,
    cs: Seq<CountryView>,
    q: Seq<char>,
    i: usize,
)
    requires
        proper_index(m, cs),
        (i as int) < cs.len(),
    ensures
        query_matches(m, q, i) <==> (lowercase_of(q).len() >= 1 && exists|j: int|
            0 <= j < country_names(cs[i as int]).len() && fits_index_key(
                #[trigger] country_names(cs[i as int])[j],
            ) && lowercase_of(q).is_prefix_of(lowercase_of(country_names(cs[i as int])[j]))),
{
    if query_matches(m, q, i) {
        let k = choose|k: Seq<char>|
            #[trigger] m.contains_key(k) && lowercase_of(q).is_prefix_of(k) && m[k].contains(i);
        let e = choose|e: int| 0 <= e < m[k].len() && m[k][e] == i;
        assert(m[k][e] == i);
        assert(key_names_country(cs, k, i));
        let j = choose|j: int|
            0 <= j < country_names(cs[i as int]).len() && k == lowercase_of(
                #[trigger] country_names(cs[i as int])[j],
            );
        assert(1 <= k.len() <= MAX_KEY_LEN as int);
        assert(fits_index_key(country_names(cs[i as int])[j]));
    }
    if lowercase_of(q).len() >= 1 && exists|j: int|
        0 <= j < country_names(cs[i as int]).len() && fits_index_key(
            #[trigger] country_names(cs[i as int])[j],
        ) && lowercase_of(q).is_prefix_of(lowercase_of(country_names(cs[i as int])[j])) {
        let j = choose|j: int|
            0 <= j < country_names(cs[i as int]).len() && fits_index_key(
                #[trigger] country_names(cs[i as int])[j],
            ) && lowercase_of(q).is_prefix_of(lowercase_of(country_names(cs[i as int])[j]));
        assert(indexed_under(m, country_names(cs[i as int])[j], i));
    }
}

/// Insert `x` into the ascending list `v`, unless it is already there.
fn insert_sorted(v: &mut Vec<usize>, x: usize)
    requires
        strictly_increasing(old(v)@),
    ensures
        strictly_increasing(final(v)@),
        forall|y: usize| #[trigger] final(v)@.contains(y) <==> (old(v)@.contains(y) || y == x),
{
    let mut p: usize = 0;
    while p < v.len() && v[p] < x
        invariant
            p <= v@.len(),
            v@ == old(v)@,
            forall|a: int| 0 <= a < p ==> v@[a] < x,
        decreases v@.len() - p,
    {
        p = p + 1;
    }
    if p == v.len() || v[p] > x {
        let ghost s0 = v@;
        v.insert(p, x);
        proof {
            s0.insert_ensures(p as int, x);
            assert forall|a: int, b: int| 0 <= a < b < v@.len() implies v@[a] < v@[b] by {
                if b < p {
                } else if a < p && b == p {
                    assert(v@[a] == s0[a] && v@[b] == x);
                } else if a < p && b > p {
                    assert(v@[a] == s0[a] && v@[b] == s0[b - 1]);
                    assert(s0[a] < x);
                    if b - 1 > p {
                        assert(s0[p as int] < s0[b - 1]);
                    }
                } else if a == p {
                    assert(v@[a] == x && v@[b] == s0[b - 1]);
                    assert(b - 1 >= p);
                    if b - 1 > p {
                        assert(s0[p as int] < s0[b - 1]);
                    }
                } else {
                    assert(v@[a] == s0[a - 1] && v@[b] == s0[b - 1]);
                }
            }
            assert forall|y: usize| #[trigger]
                v@.contains(y) <==> (s0.contains(y) || y == x) by {
                if v@.contains(y) {
                    let w = choose|a: int| 0 <= a < v@.len() && v@[a] == y;
                    if w < p {
                        assert(s0[w] == y);
                    } else if w == p {
                    } else {
                        assert(s0[w - 1] == y);
                    }
                }
                if s0.contains(y) {
                    let w = choose|a: int| 0 <= a < s0.len() && s0[a] == y;
                    if w < p {
                        assert(v@[w] == y);
                    } else {
                        assert(v@[w + 1] == y);
                    }
                }
                if y == x {
                    assert(v@[p as int] == y);
                }
            }
        }
    } else {
        proof {
            assert(v@[p as int] == x);
            assert(v@.contains(x));
        }
    }
}

/// `y` stands in one of the value lists of `ps`, at a pair before `a_hi`,
/// or within pair `a_hi` before element `c_hi`.
pub open spec fn flat_below(
    ps: Seq<(String, Vec<usize>)>,
    a_hi: int,
    c_hi: int,
    y: usize,
) -> bool {
    exists|b: int, c: int|
        0 <= b < ps.len() && (b < a_hi || (b == a_hi && c < c_hi)) && 0 <= c < ps[b].1@.len() && (
        #[trigger] ps[b].1@[c]) == y
}

impl CountrySearch {
    /// The countries one of whose names begins, lowercased, with the
    /// lowercased query: in table order, each only once. An empty query
    /// finds nothing; matching is case-insensitive.
    pub fn prefix_lookup(&self, prefix: &str) -> (r: Vec<Country>)
        ensures
            exists|ids: Seq<usize>|
                #[trigger] lookup_result(
                    self.index(),
                    self.countries(),
                    prefix@,
                    ids,
                    r.deep_view(),
                ),
    {
        proof {
            use_type_invariant(self);
        }
        let ghost m = tst_entries(self.prefixes);
        let ghost cs = self.entries.deep_view();
        let low: String = to_lowercase_string(prefix);
        let n: usize = low.as_str().unicode_len();
        let mut ids: Vec<usize> = Vec::new();
        if 1 <= n && n <= MAX_KEY_LEN {
            let pairs: Vec<(String, Vec<usize>)> = tst_entries_with_prefix(
                &self.prefixes,
                low.as_str(),
            );
            let mut a: usize = 0;
            while a < pairs.len()
                invariant
                    a <= pairs@.len(),
                    strictly_increasing(ids@),
                    forall|j: int|
                        0 <= j < pairs@.len() ==> m.contains_key((#[trigger] pairs@[j]).0@)
                            && low@.is_prefix_of(pairs@[j].0@) && pairs@[j].1@ == m[pairs@[j].0@],
                    forall|y: usize| #[trigger] ids@.contains(y) <==> flat_below(pairs@, a as int, 0, y),
                decreases pairs@.len() - a,
            {
                let vals: &Vec<usize> = &pairs[a].1;
                let mut c: usize = 0;
                while c < vals.len()
                    invariant
                        a < pairs@.len(),
                        c <= vals@.len(),
                        vals@ == pairs@[a as int].1@,
                        strictly_increasing(ids@),
                        forall|y: usize| #[trigger]
                            ids@.contains(y) <==> flat_below(pairs@, a as int, c as int, y),
                    decreases vals@.len() - c,
                {
                    insert_sorted(&mut ids, vals[c]);
                    proof {
                        assert forall|y: usize| #[trigger]
                            ids@.contains(y) <==> flat_below(pairs@, a as int, c as int + 1, y) by {
                            if ids@.contains(y) {
                                if y == vals@[c as int] {
                                    assert(pairs@[a as int].1@[c as int] == y);
                                    assert(flat_below(pairs@, a as int, c as int + 1, y));
                                } else {
                                    let (b0, c0) = choose|b: int, c0: int|
                                        0 <= b < pairs@.len() && (b < a as int || (b == a as int
                                            && c0 < c as int)) && 0 <= c0 < pairs@[b].1@.len() && (
                                        #[trigger] pairs@[b].1@[c0]) == y;
                                    assert(pairs@[b0].1@[c0] == y);
                                }
                            }
                            if flat_below(pairs@, a as int, c as int + 1, y) {
                                let (b0, c0) = choose|b: int, c0: int|
                                    0 <= b < pairs@.len() && (b < a as int || (b == a as int && c0
                                        < c as int + 1)) && 0 <= c0 < pairs@[b].1@.len() && (
                                    #[trigger] pairs@[b].1@[c0]) == y;
                                if b0 == a as int && c0 == c as int {
                                    assert(y == vals@[c as int]);
                                } else {
                                    assert(flat_below(pairs@, a as int, c as int, y));
                                }
                            }
                        }
                    }
                    c = c + 1;
                }
                proof {
                    assert forall|y: usize| #[trigger]
                        ids@.contains(y) <==> flat_below(pairs@, a as int + 1, 0, y) by {
                        if ids@.contains(y) {
                            let (b0, c0) = choose|b: int, c0: int|
                                0 <= b < pairs@.len() && (b < a as int || (b == a as int && c0 < c
                                    as int)) && 0 <= c0 < pairs@[b].1@.len() && (#[trigger] pairs@[b].1@[c0])
                                    == y;
                            assert(pairs@[b0].1@[c0] == y);
                        }
                        if flat_below(pairs@, a as int + 1, 0, y) {
                            let (b0, c0) = choose|b: int, c0: int|
                                0 <= b < pairs@.len() && (b < a as int + 1 || (b == a as int + 1
                                    && c0 < 0)) && 0 <= c0 < pairs@[b].1@.len() && (#[trigger] pairs@[b].1@[c0])
                                    == y;
                            assert(b0 <= a as int);
                            if b0 == a as int {
                                assert(flat_below(pairs@, a as int, c as int, y));
                            } else {
                                assert(flat_below(pairs@, a as int, c as int, y));
                            }
                        }
                    }
                }
                a = a + 1;
            }
            proof {
                // what was flattened is exactly what matches the query
                assert forall|y: usize| #[trigger]
                    ids@.contains(y) <==> query_matches(m, prefix@, y) by {
                    assert(lowercase_of(prefix@) == low@);
                    if ids@.contains(y) {
                        let (b0, c0) = choose|b: int, c0: int|
                            0 <= b < pairs@.len() && (b < pairs@.len() || (b == pairs@.len() && c0
                                < 0)) && 0 <= c0 < pairs@[b].1@.len() && (#[trigger] pairs@[b].1@[c0])
                                == y;
                        let k = pairs@[b0].0@;
                        assert(m.contains_key(k) && low@.is_prefix_of(k));
                        assert(m[k][c0] == y);
                        assert(m[k].contains(y));
                    }
                    if query_matches(m, prefix@, y) {
                        let k = choose|k: Seq<char>|
                            #[trigger] m.contains_key(k) && lowercase_of(prefix@).is_prefix_of(k)
                                && m[k].contains(y);
                        let j = choose|j: int| 0 <= j < pairs@.len() && (#[trigger] pairs@[j]).0@
                            == k;
                        let e = choose|e: int| 0 <= e < m[k].len() && m[k][e] == y;
                        assert(pairs@[j].1@[e] == y);
                        assert(flat_below(pairs@, pairs@.len() as int, 0, y));
                    }
                }
            }
        } else {
            proof {
                assert(lowercase_of(prefix@) == low@);
                assert(low@.len() == n);
                assert forall|y: usize| !query_matches(m, prefix@, y) by {
                    if query_matches(m, prefix@, y) {
                        let k = choose|k: Seq<char>|
                            #[trigger] m.contains_key(k) && lowercase_of(prefix@).is_prefix_of(k)
                                && m[k].contains(y);
                        assert(1 <= k.len() <= MAX_KEY_LEN as int);
                        assert(low@.len() <= k.len());
                    }
                }
                assert(forall|y: usize| !(#[trigger] ids@.contains(y)));
            }
        }
        proof {
            // every listed position lies within the table
            assert forall|b: int| 0 <= b < ids@.len() implies ((#[trigger] ids@[b]) as int)
                < cs.len() by {
                let y = ids@[b];
                assert(ids@.contains(y));
                let k = choose|k: Seq<char>|
                    #[trigger] m.contains_key(k) && lowercase_of(prefix@).is_prefix_of(k)
                        && m[k].contains(y);
                let e = choose|e: int| 0 <= e < m[k].len() && m[k][e] == y;
                assert(m[k][e] == y);
            }
        }
        let mut r: Vec<Country> = Vec::new();
        let mut t: usize = 0;
        while t < ids.len()
            invariant
                t <= ids@.len(),
                cs == self.entries.deep_view(),
                forall|b: int| 0 <= b < ids@.len() ==> ((#[trigger] ids@[b]) as int) < cs.len(),
                r@.len() == t as int,
                forall|b: int| 0 <= b < t ==> r@[b]@ == cs[(#[trigger] ids@[b]) as int],
            decreases ids@.len() - t,
        {
            let y: usize = ids[t];
            r.push(self.entries[y].clone());
            proof {
                assert(cs[ids@[t as int] as int] == self.entries@[ids@[t as int] as int]@);
            }
            t = t + 1;
        }
        proof {
            assert(r.deep_view().len() == r@.len());
            assert forall|b: int| 0 <= b < ids@.len() implies r.deep_view()[b] == cs[(
            #[trigger] ids@[b]) as int] by {
                assert(r.deep_view()[b] == r@[b]@);
            }
            assert(lookup_result(self.index(), self.countries(), prefix@, ids@, r.deep_view()));
        }
        r
    }
}

} // verus!
