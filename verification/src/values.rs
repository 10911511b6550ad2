//! A table from names to values, and the lookup of a list of names in it.

use vstd::prelude::*;
use vstd::string::StringSliceAdditionalSpecFns;
use vstd::utf8::encode_utf8_decode_utf8;

verus! {

/// What a table holds: the names that have a value, each with its value.
pub type Table = Map<Seq<char>, Seq<char>>;

/// The mapping that a list of pairs stands for. Of two pairs with one name
/// the later one counts.
pub open spec fn pairs_to_map(pairs: Seq<(Seq<char>, Seq<char>)>) -> Table
    decreases pairs.len(),
{
    if pairs.len() == 0 {
        Map::empty()
    } else {
        pairs_to_map(pairs.drop_last()).insert(pairs.last().0, pairs.last().1)
    }
}

/// No name occurs in two pairs.
pub open spec fn distinct_names(pairs: Seq<(Seq<char>, Seq<char>)>) -> bool {
    forall|i: int, j: int|
        0 <= i < j < pairs.len() ==> (#[trigger] pairs[i]).0 != (#[trigger] pairs[j]).0
}

/// Each pair of strings taken as a pair of sequences of characters.
pub open spec fn pair_texts(pairs: Seq<(String, String)>) -> Seq<(Seq<char>, Seq<char>)> {
    Seq::new(pairs.len(), |i: int| (pairs[i].0@, pairs[i].1@))
}

/// Each pair of a name and a string taken as a pair of sequences of
/// characters.
pub open spec fn named_texts(pairs: Seq<(&'static str, String)>) -> Seq<(Seq<char>, Seq<char>)> {
    Seq::new(pairs.len(), |i: int| (pairs[i].0@, pairs[i].1@))
}

/// Each of `names` taken as its sequence of characters.
pub open spec fn texts(names: Seq<&'static str>) -> Seq<Seq<char>> {
    Seq::new(names.len(), |i: int| names[i]@)
}

/// Whether every one of `names` has a value in `source`.
pub open spec fn covers(source: Table, names: Seq<Seq<char>>) -> bool {
    forall|i: int| 0 <= i < names.len() ==> source.contains_key(#[trigger] names[i])
}

/// The first of `names`, in their order, that has no value in `source`.
pub open spec fn first_missing(source: Table, names: Seq<Seq<char>>) -> Option<Seq<char>>
    decreases names.len(),
{
    if names.len() == 0 {
        None
    } else if !source.contains_key(names.first()) {
        Some(names.first())
    } else {
        first_missing(source, names.drop_first())
    }
}

/// What looking `names` up in `source` gives: the part of `source` under
/// `names` where it has them all, else the first name that it lacks.
pub open spec fn selection(source: Table, names: Seq<Seq<char>>) -> Result<Table, Seq<char>> {
    match first_missing(source, names) {
        Some(name) => Err(name),
        None => Ok(source.restrict(names.to_set())),
    }
}

/// A name is in the mapping exactly when some pair carries it, and the
/// mapping is finite.
pub proof fn lemma_pairs_to_map_dom(pairs: Seq<(Seq<char>, Seq<char>)>, name: Seq<char>)
    ensures
        pairs_to_map(pairs).contains_key(name) <==> exists|i: int|
            0 <= i < pairs.len() && (#[trigger] pairs[i]).0 == name,
        pairs_to_map(pairs).dom().finite(),
    decreases pairs.len(),
{
    if pairs.len() > 0 {
        let front = pairs.drop_last();
        lemma_pairs_to_map_dom(front, name);
        if pairs_to_map(front).contains_key(name) {
            let i = choose|i: int| 0 <= i < front.len() && (#[trigger] front[i]).0 == name;
            assert(pairs[i].0 == name);
        }
        if exists|i: int| 0 <= i < pairs.len() && (#[trigger] pairs[i]).0 == name {
            let i = choose|i: int| 0 <= i < pairs.len() && (#[trigger] pairs[i]).0 == name;
            if i < pairs.len() - 1 {
                assert(front[i].0 == name);
            }
        }
    }
}

/// Where no name occurs twice, each pair's value is the one the mapping
/// holds for its name, and the mapping has as many entries as there are pairs.
pub proof fn lemma_pairs_to_map_distinct(pairs: Seq<(Seq<char>, Seq<char>)>)
    requires
        distinct_names(pairs),
    ensures
        forall|i: int|
            0 <= i < pairs.len() ==> pairs_to_map(pairs)[(#[trigger] pairs[i]).0] == pairs[i].1,
        pairs_to_map(pairs).len() == pairs.len(),
    decreases pairs.len(),
{
    if pairs.len() > 0 {
        let front = pairs.drop_last();
        let last = pairs.last();
        assert(distinct_names(front)) by {
            assert forall|i: int, j: int| 0 <= i < j < front.len() implies (#[trigger] front[i]).0
                != (#[trigger] front[j]).0 by {
                assert(pairs[i].0 != pairs[j].0);
            }
        }
        lemma_pairs_to_map_distinct(front);
        lemma_pairs_to_map_dom(front, last.0);
        assert(!pairs_to_map(front).contains_key(last.0)) by {
            if pairs_to_map(front).contains_key(last.0) {
                let i = choose|i: int| 0 <= i < front.len() && (#[trigger] front[i]).0 == last.0;
                assert(pairs[i].0 != pairs[pairs.len() - 1].0);
            }
        }
        assert forall|i: int| 0 <= i < pairs.len() implies pairs_to_map(pairs)[(
        #[trigger] pairs[i]).0] == pairs[i].1 by {
            if i < pairs.len() - 1 {
                assert(front[i] == pairs[i]);
            }
        }
    }
}

/// No name is missing exactly when all are covered; a missing name stands
/// at a place before which all names are covered.
pub proof fn lemma_first_missing(source: Table, names: Seq<Seq<char>>)
    ensures
        first_missing(source, names) is None <==> covers(source, names),
        first_missing(source, names) matches Some(name) ==> exists|i: int|
            0 <= i < names.len() && #[trigger] names[i] == name && !source.contains_key(name)
                && covers(source, names.take(i)),
    decreases names.len(),
{
    if names.len() > 0 {
        let rest = names.drop_first();
        lemma_first_missing(source, rest);
        if !source.contains_key(names.first()) {
            assert(names[0] == names.first() && covers(source, names.take(0)));
        } else {
            if covers(source, rest) {
                assert forall|i: int| 0 <= i < names.len() implies source.contains_key(
                    #[trigger] names[i],
                ) by {
                    if i > 0 {
                        assert(rest[i - 1] == names[i]);
                    }
                }
            }
            if covers(source, names) {
                assert forall|i: int| 0 <= i < rest.len() implies source.contains_key(
                    #[trigger] rest[i],
                ) by {
                    assert(rest[i] == names[i + 1]);
                }
            }
            if first_missing(source, rest) is Some {
                let name = first_missing(source, rest).unwrap();
                let i = choose|i: int|
                    0 <= i < rest.len() && #[trigger] rest[i] == name && !source.contains_key(name)
                        && covers(source, rest.take(i));
                assert(names[i + 1] == name);
                assert forall|j: int| 0 <= j < names.take(i + 1).len() implies source.contains_key(
                    #[trigger] names.take(i + 1)[j],
                ) by {
                    if j > 0 {
                        assert(rest.take(i)[j - 1] == names[j]);
                    }
                }
            }
        }
    }
}

/// The name at a place before which all names are covered, and which is
/// itself not covered, is the first missing one.
pub proof fn lemma_first_missing_at(source: Table, names: Seq<Seq<char>>, at: int)
    requires
        0 <= at < names.len(),
        covers(source, names.take(at)),
        !source.contains_key(names[at]),
    ensures
        first_missing(source, names) == Some(names[at]),
    decreases at,
{
    if at > 0 {
        let rest = names.drop_first();
        assert(names.take(at)[0] == names.first());
        assert forall|j: int| 0 <= j < rest.take(at - 1).len() implies source.contains_key(
            #[trigger] rest.take(at - 1)[j],
        ) by {
            assert(names.take(at)[j + 1] == rest[j]);
        }
        lemma_first_missing_at(source, rest, at - 1);
    }
}

/// Looking names up succeeds exactly when the source covers them all. It
/// then gives the names with the values that the source has for them, and
/// nothing else. Where it fails it gives a name that the source lacks, the
/// first such in the order of the names.
pub proof fn lemma_selection(source: Table, names: Seq<Seq<char>>)
    ensures
        selection(source, names) is Ok <==> covers(source, names),
        selection(source, names) matches Ok(found) ==> {
            &&& found.dom() == names.to_set()
            &&& covers(found, names)
            &&& forall|name: Seq<char>| #[trigger]
                found.contains_key(name) ==> source.contains_key(name) && found[name]
                    == source[name]
        },
        selection(source, names) matches Err(name) ==> exists|i: int|
            0 <= i < names.len() && #[trigger] names[i] == name && !source.contains_key(name)
                && covers(source, names.take(i)),
{
    lemma_first_missing(source, names);
    if selection(source, names) is Ok {
        let found = source.restrict(names.to_set());
        assert forall|name: Seq<char>| names.to_set().contains(name) implies found.contains_key(
            name,
        ) by {
            let i = choose|i: int| 0 <= i < names.len() && names[i] == name;
            assert(source.contains_key(names[i]));
        }
        assert forall|i: int| 0 <= i < names.len() implies found.contains_key(
            #[trigger] names[i],
        ) by {
            assert(names.to_set().contains(names[i]));
        }
    }
}

/// Looking no names up succeeds on every source and gives the empty mapping.
pub proof fn lemma_selection_of_nothing(source: Table, names: Seq<Seq<char>>)
    requires
        names.len() == 0,
    ensures
        selection(source, names) == Ok::<_, Seq<char>>(Table::empty()),
{
    assert(source.restrict(names.to_set()) =~= Table::empty());
}

/// A finite table from names to values in which no name occurs twice.
#[derive(Debug)]
pub struct ValueTable {
    pairs: Vec<(String, String)>,
}

impl View for ValueTable {
    type V = Table;

    closed spec fn view(&self) -> Table {
        pairs_to_map(pair_texts(self.pairs@))
    }
}

impl ValueTable {
    #[verifier::type_invariant]
    spec fn well_formed(&self) -> bool {
        distinct_names(pair_texts(self.pairs@))
    }

    /// The empty table.
    pub fn new() -> (table: Self)
        ensures
            table@ == Table::empty(),
    {
        ValueTable { pairs: Vec::new() }
    }

    /// The number of names that have a value.
    pub fn len(&self) -> (n: usize)
        ensures
            self@.dom().finite(),
            n == self@.len(),
    {
        proof {
            use_type_invariant(self);
            lemma_pairs_to_map_distinct(pair_texts(self.pairs@));
            lemma_pairs_to_map_dom(pair_texts(self.pairs@), Seq::empty());
        }
        self.pairs.len()
    }

    /// Whether no name has a value.
    pub fn is_empty(&self) -> (empty: bool)
        ensures
            empty == (self@ == Table::empty()),
    {
        proof {
            let pairs = pair_texts(self.pairs@);
            if pairs.len() > 0 {
                lemma_pairs_to_map_dom(pairs, pairs[0].0);
            }
        }
        self.pairs.len() == 0
    }

    /// Whether `name` has a value.
    pub fn contains_key(&self, name: &str) -> (found: bool)
        ensures
            found == self@.contains_key(name@),
    {
        let at = position(&self.pairs, name);
        proof {
            if at is Some {
                lemma_pairs_to_map_dom(pair_texts(self.pairs@), name@);
                assert(pair_texts(self.pairs@)[at.unwrap() as int].0 == name@);
            }
        }
        at.is_some()
    }

    /// The value that `name` has, if it has one.
    pub fn get(&self, name: &str) -> (value: Option<&String>)
        ensures
            match value {
                Some(v) => self@.contains_key(name@) && v@ == self@[name@],
                None => !self@.contains_key(name@),
            },
    {
        match position(&self.pairs, name) {
            Some(i) => {
                proof {
                    let pairs = pair_texts(self.pairs@);
                    use_type_invariant(self);
                    lemma_pairs_to_map_distinct(pairs);
                    lemma_pairs_to_map_dom(pairs, name@);
                    assert(pairs[i as int] == (name@, self.pairs@[i as int].1@));
                }
                Some(&self.pairs[i].1)
            },
            None => None,
        }
    }

    /// The table that a list of pairs stands for. Of two pairs with one name
    /// the later one counts.
    pub fn from_pairs(pairs: Vec<(String, String)>) -> (table: Self)
        ensures
            table@ == pairs_to_map(pair_texts(pairs@)),
    {
        let mut kept: Vec<(String, String)> = Vec::new();
        let mut i: usize = 0;
        while i < pairs.len()
            invariant
                i <= pairs@.len(),
                distinct_names(pair_texts(kept@)),
                pairs_to_map(pair_texts(kept@)) == pairs_to_map(pair_texts(pairs@).take(i as int)),
            decreases pairs@.len() - i,
        {
            let name = pairs[i].0.clone();
            let value = pairs[i].1.clone();
            proof {
                let given = pair_texts(pairs@);
                assert(given.take(i + 1).drop_last() == given.take(i as int));
            }
            put(&mut kept, name, value);
            i = i + 1;
        }
        proof {
            let given = pair_texts(pairs@);
            assert(given.take(pairs@.len() as int) == given);
        }
        ValueTable { pairs: kept }
    }

    /// The table that a list of names with their values stands for. Of two
    /// pairs with one name the later one counts.
    pub fn from_named(pairs: Vec<(&'static str, String)>) -> (table: Self)
        ensures
            table@ == pairs_to_map(named_texts(pairs@)),
    {
        let mut owned: Vec<(String, String)> = Vec::new();
        let mut i: usize = 0;
        while i < pairs.len()
            invariant
                i <= pairs@.len(),
                owned@.len() == i,
                forall|j: int|
                    0 <= j < i ==> (#[trigger] owned@[j]).0@ == pairs@[j].0@ && owned@[j].1@
                        == pairs@[j].1@,
            decreases pairs@.len() - i,
        {
            let name = pairs[i].0.to_owned();
            let value = pairs[i].1.clone();
            owned.push((name, value));
            i = i + 1;
        }
        proof {
            assert(pair_texts(owned@) == named_texts(pairs@));
        }
        ValueTable::from_pairs(owned)
    }

    /// Looks every one of `names` up, in their order: the table of those
    /// names with their values here, or the first name that has none.
    pub fn select(&self, names: &Vec<&'static str>) -> (found: Result<ValueTable, &'static str>)
        ensures
            match found {
                Ok(table) => selection(self@, texts(names@)) == Ok::<_, Seq<char>>(table@),
                Err(name) => selection(self@, texts(names@)) == Err::<Table, _>(name@),
            },
    {
        let ghost wanted = texts(names@);
        let mut kept: Vec<(String, String)> = Vec::new();
        let mut i: usize = 0;
        while i < names.len()
            invariant
                i <= names@.len(),
                wanted == texts(names@),
                distinct_names(pair_texts(kept@)),
                covers(self@, wanted.take(i as int)),
                pairs_to_map(pair_texts(kept@)) == self@.restrict(wanted.take(i as int).to_set()),
            decreases names@.len() - i,
        {
            let name: &'static str = names[i];
            match self.get(name) {
                None => {
                    proof {
                        lemma_first_missing_at(self@, wanted, i as int);
                    }
                    return Err(name);
                },
                Some(value) => {
                    put(&mut kept, name.to_owned(), value.clone());
                    proof {
                        let before = wanted.take(i as int);
                        let after = wanted.take(i + 1);
                        assert(after == before.push(name@));
                        before.lemma_push_to_set_commute(name@);
                        assert(self@.restrict(after.to_set()) == self@.restrict(
                            before.to_set(),
                        ).insert(name@, self@[name@]));
                        assert forall|j: int| 0 <= j < after.len() implies self@.contains_key(
                            #[trigger] after[j],
                        ) by {
                            if j < i {
                                assert(before[j] == after[j]);
                            }
                        }
                    }
                },
            }
            i = i + 1;
        }
        proof {
            assert(wanted.take(names@.len() as int) == wanted);
            lemma_first_missing(self@, wanted);
        }
        Ok(ValueTable { pairs: kept })
    }
}

impl PartialEq for ValueTable {
    /// Whether the two tables hold the same names with the same values.
    fn eq(&self, other: &Self) -> (equal: bool) {
        let ghost mine = pair_texts(self.pairs@);
        let ghost theirs = pair_texts(other.pairs@);
        proof {
            use_type_invariant(self);
            use_type_invariant(other);
            lemma_pairs_to_map_distinct(mine);
            lemma_pairs_to_map_distinct(theirs);
        }
        if self.pairs.len() != other.pairs.len() {
            return false;
        }
        let mut i: usize = 0;
        while i < self.pairs.len()
            invariant
                i <= self.pairs@.len(),
                mine == pair_texts(self.pairs@),
                theirs == pair_texts(other.pairs@),
                distinct_names(mine),
                distinct_names(theirs),
                forall|j: int|
                    0 <= j < i ==> other@.contains_key((#[trigger] mine[j]).0) && other@[mine[j].0]
                        == mine[j].1,
            decreases self.pairs@.len() - i,
        {
            proof {
                lemma_pairs_to_map_distinct(mine);
                lemma_pairs_to_map_distinct(theirs);
                lemma_pairs_to_map_dom(mine, mine[i as int].0);
            }
            match position(&other.pairs, self.pairs[i].0.as_str()) {
                None => {
                    return false;
                },
                Some(k) => {
                    proof {
                        let name = mine[i as int].0;
                        lemma_pairs_to_map_dom(theirs, name);
                        assert(theirs[k as int].0 == name);
                    }
                    if !same_text(other.pairs[k].1.as_str(), self.pairs[i].1.as_str()) {
                        return false;
                    }
                },
            }
            i = i + 1;
        }
        proof {
            lemma_pairs_to_map_dom(mine, Seq::empty());
            lemma_pairs_to_map_dom(theirs, Seq::empty());
            assert forall|name: Seq<char>| #[trigger]
                self@.dom().contains(name) implies other@.dom().contains(name) && other@[name]
                == self@[name] by {
                lemma_pairs_to_map_dom(mine, name);
            }
            vstd::set_lib::lemma_subset_equality(self@.dom(), other@.dom());
            assert(self@ =~= other@);
        }
        true
    }
}

impl vstd::std_specs::cmp::PartialEqSpecImpl for ValueTable {
    open spec fn obeys_eq_spec() -> bool {
        true
    }

    open spec fn eq_spec(&self, other: &Self) -> bool {
        self@ == other@
    }
}

impl Eq for ValueTable {}

impl Clone for ValueTable {
    fn clone(&self) -> (table: Self)
        ensures
            table@ == self@,
    {
        let mut pairs: Vec<(String, String)> = Vec::new();
        let mut i: usize = 0;
        while i < self.pairs.len()
            invariant
                i <= self.pairs@.len(),
                pairs@ == self.pairs@.take(i as int),
            decreases self.pairs@.len() - i,
        {
            let name = self.pairs[i].0.clone();
            let value = self.pairs[i].1.clone();
            pairs.push((name, value));
            i = i + 1;
        }
        proof {
            use_type_invariant(self);
            assert(self.pairs@.take(self.pairs@.len() as int) == self.pairs@);
        }
        ValueTable { pairs }
    }
}

/// Whether two strings hold the same characters, found by comparing their
/// bytes.
fn same_text(a: &str, b: &str) -> (same: bool)
    ensures
        same == (a@ == b@),
{
    let left = a.as_bytes();
    let right = b.as_bytes();
    proof {
        encode_utf8_decode_utf8(a@);
        encode_utf8_decode_utf8(b@);
    }
    if left.len() != right.len() {
        return false;
    }
    let mut i: usize = 0;
    while i < left.len()
        invariant
            i <= left@.len(),
            left@.len() == right@.len(),
            left@ == a.spec_bytes(),
            right@ == b.spec_bytes(),
            forall|j: int| 0 <= j < i ==> left@[j] == right@[j],
        decreases left@.len() - i,
    {
        if left[i] != right[i] {
            return false;
        }
        i = i + 1;
    }
    proof {
        assert(left@ =~= right@);
    }
    true
}

/// Where `name` stands among the pairs, if it does.
fn position(pairs: &Vec<(String, String)>, name: &str) -> (at: Option<usize>)
    ensures
        match at {
            Some(i) => i < pairs@.len() && pairs@[i as int].0@ == name@,
            None => !pairs_to_map(pair_texts(pairs@)).contains_key(name@),
        },
{
    let mut i: usize = 0;
    while i < pairs.len()
        invariant
            i <= pairs@.len(),
            forall|j: int| 0 <= j < i ==> (#[trigger] pairs@[j]).0@ != name@,
        decreases pairs@.len() - i,
    {
        if same_text(pairs[i].0.as_str(), name) {
            return Some(i);
        }
        i = i + 1;
    }
    proof {
        let given = pair_texts(pairs@);
        lemma_pairs_to_map_dom(given, name@);
    }
    None
}

/// Gives `name` the value `value`, in place of the one it had, if any.
fn put(pairs: &mut Vec<(String, String)>, name: String, value: String)
    requires
        distinct_names(pair_texts(old(pairs)@)),
    ensures
        distinct_names(pair_texts(final(pairs)@)),
        pairs_to_map(pair_texts(final(pairs)@)) == pairs_to_map(pair_texts(old(pairs)@)).insert(
            name@,
            value@,
        ),
{
    let ghost before = pair_texts(pairs@);
    match position(pairs, name.as_str()) {
        Some(i) => {
            proof {
                lemma_update_is_insert(before, i as int, (name@, value@));
            }
            pairs[i] = (name, value);
            assert(pair_texts(pairs@) == before.update(i as int, (name@, value@)));
        },
        None => {
            proof {
                lemma_push_is_insert(before, (name@, value@));
            }
            pairs.push((name, value));
            assert(pair_texts(pairs@) == before.push((name@, value@)));
        },
    }
}

/// Appending a pair with a new name adds it to the mapping and keeps the
/// names distinct.
proof fn lemma_push_is_insert(pairs: Seq<(Seq<char>, Seq<char>)>, pair: (Seq<char>, Seq<char>))
    requires
        distinct_names(pairs),
        !pairs_to_map(pairs).contains_key(pair.0),
    ensures
        distinct_names(pairs.push(pair)),
        pairs_to_map(pairs.push(pair)) == pairs_to_map(pairs).insert(pair.0, pair.1),
{
    let longer = pairs.push(pair);
    assert(longer.drop_last() == pairs);
    lemma_pairs_to_map_dom(pairs, pair.0);
    assert forall|i: int, j: int| 0 <= i < j < longer.len() implies (#[trigger] longer[i]).0 != (
    #[trigger] longer[j]).0 by {
        if j < pairs.len() {
            assert(pairs[i].0 != pairs[j].0);
        } else {
            assert(pairs[i].0 != pair.0);
        }
    }
}

/// Replacing the pair that carries a name by another pair with that name
/// changes the value of that name alone and keeps the names distinct.
proof fn lemma_update_is_insert(
    pairs: Seq<(Seq<char>, Seq<char>)>,
    at: int,
    pair: (Seq<char>, Seq<char>),
)
    requires
        distinct_names(pairs),
        0 <= at < pairs.len(),
        pairs[at].0 == pair.0,
    ensures
        distinct_names(pairs.update(at, pair)),
        pairs_to_map(pairs.update(at, pair)) == pairs_to_map(pairs).insert(pair.0, pair.1),
{
    let changed = pairs.update(at, pair);
    assert forall|i: int, j: int| 0 <= i < j < changed.len() implies (#[trigger] changed[i]).0 != (
    #[trigger] changed[j]).0 by {
        assert(pairs[i].0 != pairs[j].0);
    }
    lemma_pairs_to_map_distinct(pairs);
    lemma_pairs_to_map_distinct(changed);
    let before = pairs_to_map(pairs).insert(pair.0, pair.1);
    let after = pairs_to_map(changed);
    assert forall|name: Seq<char>| before.contains_key(name) <==> after.contains_key(name) by {
        lemma_pairs_to_map_dom(pairs, name);
        lemma_pairs_to_map_dom(changed, name);
        if after.contains_key(name) {
            let i = choose|i: int| 0 <= i < changed.len() && (#[trigger] changed[i]).0 == name;
            assert(pairs[i].0 == name);
        }
        if pairs_to_map(pairs).contains_key(name) {
            let i = choose|i: int| 0 <= i < pairs.len() && (#[trigger] pairs[i]).0 == name;
            assert(changed[i].0 == name);
        }
    }
    assert forall|name: Seq<char>| before.contains_key(name) implies before[name]
        == after[name] by {
        lemma_pairs_to_map_dom(changed, name);
        let i = choose|i: int| 0 <= i < changed.len() && (#[trigger] changed[i]).0 == name;
        assert(after[changed[i].0] == changed[i].1);
        if i != at {
            assert(pairs_to_map(pairs)[pairs[i].0] == pairs[i].1);
        }
    }
    assert(before =~= after);
}

} // verus!
