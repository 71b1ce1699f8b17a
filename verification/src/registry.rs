//! The class registry: the named classes of a timetable, in the order in
//! which they were added. A class is referred to by its position.

use vstd::prelude::*;
use crate::text::same_text;

verus! {

/// A named class with its free-form notes.
#[derive(Debug)]
pub struct Class {
    pub name: String,
    pub todo: Vec<String>,
}

/// What a class is, as plain text.
pub struct ClassView {
    pub name: Seq<char>,
    pub todo: Seq<Seq<char>>,
}

impl View for Class {
    type V = ClassView;

    open spec fn view(&self) -> ClassView {
        ClassView { name: self.name@, todo: Seq::new(self.todo@.len(), |i: int| self.todo@[i]@) }
    }
}

/// The classes of a sequence, each as plain text.
pub open spec fn views_of(classes: Seq<Class>) -> Seq<ClassView> {
    Seq::new(classes.len(), |i: int| classes[i]@)
}

/// The names of a sequence of classes, position by position.
pub open spec fn names_of(classes: Seq<ClassView>) -> Seq<Seq<char>> {
    Seq::new(classes.len(), |i: int| classes[i].name)
}

/// Whether no name occurs twice.
pub open spec fn distinct(names: Seq<Seq<char>>) -> bool {
    forall|i: int, j: int| 0 <= i < j < names.len() ==> names[i] != names[j]
}

/// The position of the first occurrence of `name`, if it occurs.
pub open spec fn find_name(names: Seq<Seq<char>>, name: Seq<char>) -> Option<int>
    decreases names.len(),
{
    if names.len() == 0 {
        None
    } else if names[0] == name {
        Some(0)
    } else {
        match find_name(names.drop_first(), name) {
            Some(i) => Some(i + 1),
            None => None,
        }
    }
}

/// `find_name` gives a position that holds the name and has no occurrence
/// before it, and gives none exactly when the name does not occur.
pub proof fn lemma_find_name(names: Seq<Seq<char>>, name: Seq<char>)
    ensures
        match find_name(names, name) {
            Some(i) => 0 <= i < names.len() && names[i] == name && forall|j: int|
                0 <= j < i ==> names[j] != name,
            None => forall|j: int| 0 <= j < names.len() ==> names[j] != name,
        },
    decreases names.len(),
{
    if names.len() > 0 && names[0] != name {
        let rest = names.drop_first();
        lemma_find_name(rest, name);
        match find_name(rest, name) {
            Some(i) => {
                assert forall|j: int| 0 <= j < i + 1 implies names[j] != name by {
                    if j > 0 {
                        assert(rest[j - 1] == names[j]);
                    }
                }
            },
            None => {
                assert forall|j: int| 0 <= j < names.len() implies names[j] != name by {
                    if j > 0 {
                        assert(rest[j - 1] == names[j]);
                    }
                }
            },
        }
    }
}

/// A class that is added under a name that no class had is then found under
/// that name, at the position it was given: the end of the sequence.
pub proof fn lemma_added_class_is_found(classes: Seq<ClassView>, name: Seq<char>)
    requires
        find_name(names_of(classes), name) is None,
    ensures
        find_name(
            names_of(classes.push(ClassView { name, todo: Seq::<Seq<char>>::empty() })),
            name,
        ) == Some(classes.len() as int),
{
    let before = names_of(classes);
    let after = names_of(classes.push(ClassView { name, todo: Seq::<Seq<char>>::empty() }));
    lemma_find_name(before, name);
    lemma_find_name(after, name);
    assert(after[classes.len() as int] == name);
    match find_name(after, name) {
        Some(i) => {
            if i < classes.len() {
                assert(after[i] == before[i]);
            }
        },
        None => {},
    }
}

/// Why a class could not be added: the name is taken by the class at `index`.
#[derive(Debug, Clone, Copy, PartialEq, Eq, Structural)]
pub struct NameTaken {
    pub index: usize,
}

/// Why a list of classes could not make a registry: the class at `index` has
/// the name of a class before it.
#[derive(Debug, Clone, Copy, PartialEq, Eq, Structural)]
pub struct NameRepeated {
    pub index: usize,
}

/// The ordered collection of classes. No two of them share a name.
#[derive(Debug)]
pub struct ClassRegistry {
    classes: Vec<Class>,
}

impl View for ClassRegistry {
    type V = Seq<ClassView>;

    closed spec fn view(&self) -> Seq<ClassView> {
        views_of(self.classes@)
    }
}

impl ClassRegistry {
    #[verifier::type_invariant]
    spec fn names_are_distinct(&self) -> bool {
        distinct(names_of(self@))
    }

    /// The names of the classes, position by position.
    pub open spec fn names(&self) -> Seq<Seq<char>> {
        names_of(self@)
    }

    /// A registry without classes.
    pub fn new() -> (registry: ClassRegistry)
        ensures
            registry@ == Seq::<ClassView>::empty(),
    {
        let registry = ClassRegistry { classes: Vec::new() };
        assert(registry@ =~= Seq::<ClassView>::empty());
        registry
    }

    /// The number of classes.
    pub fn len(&self) -> (n: usize)
        ensures
            n == self@.len(),
    {
        self.classes.len()
    }

    /// The position of the class called `name`.
    pub fn find_index(&self, name: &str) -> (found: Option<usize>)
        ensures
            match found {
                Some(i) => find_name(self.names(), name@) == Some(i as int),
                None => find_name(self.names(), name@) is None,
            },
            distinct(self.names()),
    {
        proof {
            use_type_invariant(self);
        }
        let mut i: usize = 0;
        while i < self.classes.len()
            invariant
                i <= self.classes.len(),
                distinct(self.names()),
                forall|j: int| 0 <= j < i ==> self.names()[j] != name@,
            decreases self.classes.len() - i,
        {
            if same_text(self.classes[i].name.as_str(), name) {
                proof {
                    assert(self.names()[i as int] == name@);
                    lemma_find_name(self.names(), name@);
                }
                return Some(i);
            }
            i = i + 1;
        }
        proof {
            lemma_find_name(self.names(), name@);
        }
        None
    }

    /// The class at `index`, if there is one.
    pub fn get(&self, index: usize) -> (class: Option<&Class>)
        ensures
            match class {
                Some(c) => index < self@.len() && c@ == self@[index as int],
                None => index >= self@.len(),
            },
    {
        if index < self.classes.len() {
            Some(&self.classes[index])
        } else {
            None
        }
    }

    /// Appends a class called `name`, without notes, and gives its position.
    /// A name that is already in use is refused and the registry stays as it
    /// was.
    pub fn add_class(&mut self, name: String) -> (added: Result<usize, NameTaken>)
        ensures
            match added {
                Ok(index) => {
                    &&& find_name(old(self).names(), name@) is None
                    &&& index == old(self)@.len()
                    &&& final(self)@ == old(self)@.push(
                        ClassView { name: name@, todo: Seq::<Seq<char>>::empty() },
                    )
                },
                Err(taken) => {
                    &&& find_name(old(self).names(), name@) == Some(taken.index as int)
                    &&& final(self)@ == old(self)@
                },
            },
    {
        match self.find_index(name.as_str()) {
            Some(index) => Err(NameTaken { index }),
            None => {
                let index = self.classes.len();
                let class = Class { name, todo: Vec::new() };
                proof {
                    use_type_invariant(&*self);
                    lemma_find_name(self.names(), name@);
                }
                let ghost before = self@;
                let mut classes: Vec<Class> = Vec::new();
                std::mem::swap(&mut self.classes, &mut classes);
                classes.push(class);
                proof {
                    let after = views_of(classes@);
                    let entry = ClassView { name: name@, todo: Seq::<Seq<char>>::empty() };
                    assert(class@.todo =~= Seq::<Seq<char>>::empty());
                    assert(after =~= before.push(entry));
                    assert forall|i: int, j: int| 0 <= i < j < after.len() implies names_of(
                        after,
                    )[i] != names_of(after)[j] by {
                        assert(names_of(after)[i] == names_of(before)[i]);
                        if j < before.len() {
                            assert(names_of(after)[j] == names_of(before)[j]);
                        }
                    }
                }
                self.classes = classes;
                Ok(index)
            },
        }
    }

    /// Appends `note` to the notes of the class at `index`, and tells whether
    /// there is such a class.
    pub fn add_note(&mut self, index: usize, note: String) -> (noted: bool)
        ensures
            noted == (index < old(self)@.len()),
            final(self)@ == if noted {
                old(self)@.update(
                    index as int,
                    ClassView {
                        name: old(self)@[index as int].name,
                        todo: old(self)@[index as int].todo.push(note@),
                    },
                )
            } else {
                old(self)@
            },
    {
        if index >= self.classes.len() {
            return false;
        }
        proof {
            use_type_invariant(&*self);
        }
        let ghost before = self@;
        let mut classes: Vec<Class> = Vec::new();
        std::mem::swap(&mut self.classes, &mut classes);
        let mut class = classes.remove(index);
        let ghost old_todo = class@.todo;
        class.todo.push(note);
        assert(class@.todo =~= old_todo.push(note@));
        classes.insert(index, class);
        proof {
            let after = views_of(classes@);
            assert(after =~= before.update(
                index as int,
                ClassView { name: before[index as int].name, todo: old_todo.push(note@) },
            ));
            assert(names_of(after) =~= names_of(before));
        }
        self.classes = classes;
        true
    }

    /// The classes, in registry order.
    pub fn as_vec(&self) -> (classes: &Vec<Class>)
        ensures
            views_of(classes@) == self@,
            distinct(names_of(self@)),
    {
        proof {
            use_type_invariant(self);
        }
        &self.classes
    }

    /// Gives the classes up, in registry order.
    pub fn into_vec(self) -> (classes: Vec<Class>)
        ensures
            views_of(classes@) == self@,
            distinct(names_of(self@)),
    {
        proof {
            use_type_invariant(&self);
        }
        self.classes
    }

    /// Makes a registry of `classes`, in their order. A list in which a name
    /// occurs twice is refused, with the position of the first class whose
    /// name an earlier class already has.
    pub fn from_classes(classes: Vec<Class>) -> (made: Result<ClassRegistry, NameRepeated>)
        ensures
            match made {
                Ok(registry) => {
                    &&& distinct(names_of(views_of(classes@)))
                    &&& registry@ == views_of(classes@)
                },
                Err(repeated) => {
                    &&& repeated.index < classes@.len()
                    &&& distinct(names_of(views_of(classes@)).take(repeated.index as int))
                    &&& find_name(
                        names_of(views_of(classes@)).take(repeated.index as int),
                        classes@[repeated.index as int].name@,
                    ) is Some
                },
            },
    {
        let ghost names = names_of(views_of(classes@));
        let mut j: usize = 0;
        while j < classes.len()
            invariant
                j <= classes.len(),
                names == names_of(views_of(classes@)),
                distinct(names.take(j as int)),
            decreases classes.len() - j,
        {
            let mut i: usize = 0;
            while i < j
                invariant
                    i <= j < classes.len(),
                    names == names_of(views_of(classes@)),
                    distinct(names.take(j as int)),
                    forall|k: int| 0 <= k < i ==> names[k] != names[j as int],
                decreases j - i,
            {
                if same_text(classes[i].name.as_str(), classes[j].name.as_str()) {
                    proof {
                        let earlier = names.take(j as int);
                        assert(earlier[i as int] == names[j as int]);
                        lemma_find_name(earlier, names[j as int]);
                    }
                    return Err(NameRepeated { index: j });
                }
                i = i + 1;
            }
            proof {
                let longer = names.take(j + 1);
                assert forall|a: int, b: int| 0 <= a < b < longer.len() implies longer[a]
                    != longer[b] by {
                    if b < j {
                        assert(names.take(j as int)[a] != names.take(j as int)[b]);
                    }
                }
            }
            j = j + 1;
        }
        assert(names.take(classes@.len() as int) =~= names);
        Ok(ClassRegistry { classes })
    }
}

} // verus!
