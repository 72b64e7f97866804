use crate::text::str_eq;
use vstd::prelude::*;

verus! {

/// A table read for a list's charts: the names of its fields, in order, and its
/// columns, whose values only the charting code reads.
pub struct DataFrame<C> {
    pub names: Vec<String>,
    pub columns: Vec<C>,
}

/// Whether `i` is where the first field named `s` stands.
pub open spec fn first_named(names: Seq<String>, s: Seq<char>, i: int) -> bool {
    &&& 0 <= i < names.len()
    &&& names[i]@ == s
    &&& forall|j: int| 0 <= j < i ==> #[trigger] names[j]@ != s
}

/// Whether a field is named `s`.
pub open spec fn has_name(names: Seq<String>, s: Seq<char>) -> bool {
    exists|i: int| 0 <= i < names.len() && #[trigger] names[i]@ == s
}

impl<C> DataFrame<C> {
    /// Where the first field named `s` stands, if any.
    fn position(&self, s: &str) -> (r: Option<usize>)
        ensures
            match r {
                Some(i) => first_named(self.names@, s@, i as int),
                None => !has_name(self.names@, s@),
            },
    {
        let mut i: usize = 0;
        while i < self.names.len()
            invariant
                i <= self.names@.len(),
                forall|j: int| 0 <= j < i ==> #[trigger] self.names@[j]@ != s@,
            decreases self.names.len() - i,
        {
            if str_eq(self.names[i].as_str(), s) {
                return Some(i);
            }
            i = i + 1;
        }
        None
    }

    /// The column of the first field named `s`; none where no field has that name or
    /// the table has no column there.
    pub fn column(&self, s: &str) -> (r: Option<&C>)
        ensures
            !has_name(self.names@, s@) ==> r is None,
            forall|i: int| #[trigger] first_named(self.names@, s@, i) ==> if i < self.columns@.len() {
                r matches Some(c) && *c == self.columns@[i]
            } else {
                r is None
            },
    {
        match self.position(s) {
            Some(i) => if i < self.columns.len() {
                Some(&self.columns[i])
            } else {
                None
            },
            None => None,
        }
    }

    /// Takes out the column of the first field named `s`; the fields then hold only
    /// that field's name. Where no field has that name, nothing changes.
    pub fn drop_in_place(&mut self, s: &str) -> (r: Option<C>)
        requires
            forall|i: int| #[trigger] first_named(old(self).names@, s@, i) ==> i < old(self).columns@.len(),
        ensures
            !has_name(old(self).names@, s@) ==> r is None && final(self).names@ == old(self).names@
                && final(self).columns@ == old(self).columns@,
            forall|i: int| #[trigger] first_named(old(self).names@, s@, i) ==> {
                &&& r == Some(old(self).columns@[i])
                &&& final(self).names@.len() == 1
                &&& final(self).names@[0]@ == s@
                &&& final(self).columns@ == old(self).columns@.remove(i)
            },
    {
        match self.position(s) {
            Some(i) => {
                let kept = self.names[i].clone();
                let mut names: Vec<String> = Vec::new();
                names.push(kept);
                self.names = names;
                Some(self.columns.remove(i))
            },
            None => None,
        }
    }
}

} // verus!
