use vstd::prelude::*;

use indexmap::IndexSet;

verus! {

#[verifier::external_type_specification]
#[verifier::external_body]
#[verifier::reject_recursive_types(T)]
#[verifier::reject_recursive_types(S)]
pub struct ExIndexSet<T, S>(IndexSet<T, S>);

/// The column names held by an insertion-ordered set, in insertion order.
pub uninterp spec fn index_set_items(s: IndexSet<String>) -> Seq<Seq<char>>;

/// Relies on indexmap::IndexSet::new: a new set is empty.
#[verifier::external_body]
fn index_set_new() -> (r: IndexSet<String>)
    ensures
        index_set_items(r) == Seq::<Seq<char>>::empty(),
{
    IndexSet::new()
}

/// Relies on indexmap::IndexSet::insert: an item that is not yet present is
/// appended and `true` returned; otherwise the set is unchanged and `false`
/// returned.
#[verifier::external_body]
fn index_set_insert(s: &mut IndexSet<String>, value: String) -> (r: bool)
    ensures
        r == !index_set_items(*old(s)).contains(value@),
        index_set_items(*final(s)) == if r {
            index_set_items(*old(s)).push(value@)
        } else {
            index_set_items(*old(s))
        },
{
    s.insert(value)
}

/// Relies on indexmap::IndexSet::iter: the items come in insertion order.
#[verifier::external_body]
fn index_set_to_vec(s: &IndexSet<String>) -> (r: Vec<String>)
    ensures
        r.deep_view() == index_set_items(*s),
{
    s.iter().cloned().collect()
}

/// A selection of columns: every column, or an ordered list without repeats.
#[derive(Debug)]
pub enum Columns {
    All,
    List(IndexSet<String>),
}

/// The mathematical value of a `Columns`: `None` for every column.
pub open spec fn columns_view(c: Columns) -> Option<Seq<Seq<char>>> {
    match c {
        Columns::All => None,
        Columns::List(s) => Some(index_set_items(s)),
    }
}

/// `items` with `name` appended unless already present.
pub open spec fn insert_name(items: Seq<Seq<char>>, name: Seq<char>) -> Seq<Seq<char>> {
    if items.contains(name) {
        items
    } else {
        items.push(name)
    }
}

/// A selection after each of `names` was inserted in turn.
pub open spec fn insert_names(c: Option<Seq<Seq<char>>>, names: Seq<Seq<char>>) -> Option<
    Seq<Seq<char>>,
>
    decreases names.len(),
{
    if names.len() == 0 {
        c
    } else {
        match insert_names(c, names.drop_last()) {
            None => None,
            Some(items) => Some(insert_name(items, names.last())),
        }
    }
}

/// A list of columns built by insertions never names a column twice.
pub proof fn lemma_insert_names_no_duplicates(c: Option<Seq<Seq<char>>>, names: Seq<Seq<char>>)
    requires
        c is Some ==> c->Some_0.no_duplicates(),
    ensures
        insert_names(c, names) is Some ==> insert_names(c, names)->Some_0.no_duplicates(),
    decreases names.len(),
{
    if names.len() > 0 {
        lemma_insert_names_no_duplicates(c, names.drop_last());
        match insert_names(c, names.drop_last()) {
            None => {},
            Some(items) => {
                let name = names.last();
                if !items.contains(name) {
                    let r = items.push(name);
                    assert forall|i: int, j: int| 0 <= i < r.len() && 0 <= j < r.len() && i != j implies r[i]
                        != r[j] by {
                        if i == items.len() as int {
                            assert(r[j] == items[j] && r[i] == name);
                        } else if j == items.len() as int {
                            assert(r[i] == items[i] && r[j] == name);
                        } else {
                            assert(r[i] == items[i] && r[j] == items[j]);
                        }
                    }
                }
            },
        }
    }
}

impl Columns {
    pub open spec fn view(&self) -> Option<Seq<Seq<char>>> {
        columns_view(*self)
    }

    /// Every column, inserted ones having no effect.
    pub fn all() -> (r: Columns)
        ensures
            r.view() is None,
    {
        Columns::All
    }

    /// An empty list of columns.
    pub fn list() -> (r: Columns)
        ensures
            r.view() == Some(Seq::<Seq<char>>::empty()),
    {
        Columns::List(index_set_new())
    }

    /// Appends `column` to a list unless it is already there; returns whether
    /// it was appended. Selecting every column absorbs any insertion.
    pub fn insert(&mut self, column: String) -> (r: bool)
        ensures
            final(self).view() == match old(self).view() {
                None => None,
                Some(items) => Some(insert_name(items, column@)),
            },
            r == match old(self).view() {
                None => false,
                Some(items) => !items.contains(column@),
            },
    {
        match self {
            Columns::All => false,
            Columns::List(set) => index_set_insert(set, column),
        }
    }

    /// The listed columns in order, or `None` when every column is selected.
    pub fn names(&self) -> (r: Option<Vec<String>>)
        ensures
            r is None <==> self.view() is None,
            r is Some ==> self.view() == Some(r->Some_0.deep_view()),
    {
        match self {
            Columns::All => None,
            Columns::List(set) => Some(index_set_to_vec(set)),
        }
    }
}

} // verus!
