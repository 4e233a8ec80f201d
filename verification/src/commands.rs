//! The text-command front end of the company register: parsing a line into a
//! `Command`, and the register itself, a list of departments with the people
//! added to each.

use crate::words::{split_words, tokens_of};
use vstd::prelude::*;

verus! {

/// One user command against the company register.
pub enum Command {
    /// Department and person to add to it.
    Add(String, String),
    /// List one department, or all of them.
    List(Option<String>),
    /// Stop reading commands.
    Quit(),
}

/// What `Command::parse` answers for a line whose words are `toks`: one word
/// selects `List` or `Quit`; two words starting with `List` select one
/// department; four words are an addition when they start with `Add` or have
/// `to` in third position, with the person second and the department fourth;
/// everything else is rejected.
pub open spec fn parse_result_matches(toks: Seq<Seq<char>>, r: Option<Command>) -> bool {
    if toks.len() == 1 {
        if toks[0] == "List"@ {
            r == Some(Command::List(Option::<String>::None))
        } else if toks[0] == "Quit"@ {
            r == Some(Command::Quit())
        } else {
            r is None
        }
    } else if toks.len() == 2 {
        if toks[0] == "List"@ {
            r matches Some(c) && (c matches Command::List(d) && (d matches Some(name)
                && name@ == toks[1]))
        } else {
            r is None
        }
    } else if toks.len() == 4 {
        if toks[0] == "Add"@ || toks[2] == "to"@ {
            r matches Some(c) && (c matches Command::Add(dep, per) && dep@ == toks[3] && per@
                == toks[1])
        } else {
            r is None
        }
    } else {
        r is None
    }
}

impl Command {
    /// Reads one command from a line of input, or rejects it.
    pub fn parse(input: &String) -> (r: Option<Command>)
        ensures
            parse_result_matches(tokens_of(input@), r),
    {
        let parts = split_words(input.as_str());
        let ghost toks = tokens_of(input@);
        proof {
            assert(parts@.map_values(|t: String| t@).len() == toks.len());
        }
        if parts.len() == 1 {
            proof {
                assert(parts@.map_values(|t: String| t@)[0] == toks[0]);
            }
            if parts[0] == "List".to_owned() {
                return Some(Command::List(None));
            }
            if parts[0] == "Quit".to_owned() {
                return Some(Command::Quit());
            }
            return None;
        }
        if parts.len() == 2 {
            proof {
                assert(parts@.map_values(|t: String| t@)[0] == toks[0]);
                assert(parts@.map_values(|t: String| t@)[1] == toks[1]);
            }
            if parts[0] == "List".to_owned() {
                let department = parts[1].clone();
                return Some(Command::List(Some(department)));
            }
            return None;
        }
        if parts.len() == 4 {
            proof {
                assert(parts@.map_values(|t: String| t@)[0] == toks[0]);
                assert(parts@.map_values(|t: String| t@)[1] == toks[1]);
                assert(parts@.map_values(|t: String| t@)[2] == toks[2]);
                assert(parts@.map_values(|t: String| t@)[3] == toks[3]);
            }
            if parts[0] == "Add".to_owned() || parts[2] == "to".to_owned() {
                let person = parts[1].clone();
                let department = parts[3].clone();
                return Some(Command::Add(department, person));
            }
            return None;
        }
        None
    }
}

/// One department: its name and the people added to it, in insertion order.
pub struct Department {
    pub name: String,
    pub people: Vec<String>,
}

/// The company register: departments in the order first seen, each with its
/// people in the order added. Department names never repeat.
pub struct Register {
    pub departments: Vec<Department>,
}

impl Register {
    /// No two departments share a name.
    pub open spec fn wf(self) -> bool {
        forall|i: int, j: int|
            0 <= i < self.departments@.len() && 0 <= j < self.departments@.len() && i != j
                ==> self.departments@[i].name@ != self.departments@[j].name@
    }

    /// Is some department called `name`?
    pub open spec fn has_department(self, name: Seq<char>) -> bool {
        exists|i: int| 0 <= i < self.departments@.len() && self.departments@[i].name@ == name
    }

    /// An empty register.
    pub fn new() -> (r: Register)
        ensures
            r.wf(),
            r.departments@.len() == 0,
    {
        Register { departments: Vec::new() }
    }

    /// Adds `person` to `department`: appended to the department if it is
    /// already known, otherwise a new department is created at the end with
    /// that one member.
    pub fn add(&mut self, department: String, person: String)
        requires
            old(self).wf(),
        ensures
            final(self).wf(),
            if old(self).has_department(department@) {
                &&& final(self).departments@.len() == old(self).departments@.len()
                &&& forall|i: int|
                    0 <= i < old(self).departments@.len() ==> {
                        if old(self).departments@[i].name@ == department@ {
                            &&& (#[trigger] final(self).departments@[i]).name == old(
                                self,
                            ).departments@[i].name
                            &&& final(self).departments@[i].people@ == old(
                                self,
                            ).departments@[i].people@.push(person)
                        } else {
                            final(self).departments@[i] == old(self).departments@[i]
                        }
                    }
            } else {
                &&& final(self).departments@.len() == old(self).departments@.len() + 1
                &&& final(self).departments@.take(old(self).departments@.len() as int) == old(
                    self,
                ).departments@
                &&& final(self).departments@.last().name == department
                &&& final(self).departments@.last().people@ == Seq::<String>::empty().push(person)
            },
    {
        let n = self.departments.len();
        let mut i: usize = 0;
        while i < n
            invariant
                n == self.departments@.len(),
                i <= n,
                self == old(self),
                old(self).wf(),
                forall|j: int| 0 <= j < i ==> self.departments@[j].name@ != department@,
            decreases n - i,
        {
            if self.departments[i].name == department {
                let ghost od = old(self).departments@;
                self.departments[i].people.push(person);
                proof {
                    assert(od[i as int].name@ == department@);
                    assert(old(self).has_department(department@));
                    assert forall|j: int| 0 <= j < od.len() implies {
                        if od[j].name@ == department@ {
                            &&& (#[trigger] self.departments@[j]).name == od[j].name
                            &&& self.departments@[j].people@ == od[j].people@.push(person)
                        } else {
                            self.departments@[j] == od[j]
                        }
                    } by {
                        if j != i {
                            assert(self.departments@[j] == od[j]);
                            if od[j].name@ == department@ {
                                assert(od[i as int].name@ == od[j].name@);
                                assert(false);
                            }
                        }
                    }
                    assert forall|p: int, q: int|
                        0 <= p < self.departments@.len() && 0 <= q < self.departments@.len() && p
                            != q implies self.departments@[p].name@
                        != self.departments@[q].name@ by {
                        assert(self.departments@[p].name@ == od[p].name@);
                        assert(self.departments@[q].name@ == od[q].name@);
                    }
                }
                return ;
            }
            i = i + 1;
        }
        let mut people: Vec<String> = Vec::new();
        people.push(person);
        self.departments.push(Department { name: department, people });
        proof {
            assert(final(self).departments@.take(old(self).departments@.len() as int) =~= old(
                self,
            ).departments@);
        }
    }

    /// The people of `department`, in the order added; `None` exactly when
    /// no department has that name.
    pub fn people_in(&self, department: &String) -> (r: Option<&Vec<String>>)
        requires
            self.wf(),
        ensures
            (r is Some) == self.has_department(department@),
            r matches Some(v) ==> exists|i: int|
                0 <= i < self.departments@.len() && (#[trigger] self.departments@[i]).name@
                    == department@ && v@ == self.departments@[i].people@,
    {
        let n = self.departments.len();
        let mut i: usize = 0;
        while i < n
            invariant
                n == self.departments@.len(),
                i <= n,
                forall|j: int| 0 <= j < i ==> self.departments@[j].name@ != department@,
            decreases n - i,
        {
            if self.departments[i].name == *department {
                return Some(&self.departments[i].people);
            }
            i = i + 1;
        }
        None
    }
}

} // verus!
