//! The registry: an ordered list of names that builds its two seed entries
//! on first access and grows by appends from then on.

use once_cell::sync::Lazy;
use vstd::prelude::*;
use vstd::string::*;

verus! {

/// The names of a list of strings, in order.
pub open spec fn names_of(strings: Seq<String>) -> Seq<Seq<char>> {
    strings.map_values(|s: String| s@)
}

/// The two entries that every registry starts from.
pub open spec fn seed_names() -> Seq<Seq<char>> {
    seq!["MS"@, "MJ"@]
}

/// Builds the seed entries. The cell of a registry calls this once, on its
/// first access.
pub fn build_users() -> (users: Vec<String>)
    ensures
        names_of(users@) == seed_names(),
{
    let mut users: Vec<String> = Vec::new();
    users.push(String::from_str("MS"));
    users.push(String::from_str("MJ"));
    assert(names_of(users@) =~= seed_names());
    users
}

/// A `once_cell::sync::Lazy` that holds a list of names. Nothing of it is
/// proved: the functions below it say what is believed of it.
#[verifier::external_body]
pub struct SeededCell {
    cell: Lazy<Vec<String>>,
}

/// The names that a cell holds, or will hold once it has been forced: the
/// value of its initialiser until the first write, and what the writes
/// have made of it after that.
pub uninterp spec fn cell_names(cell: SeededCell) -> Seq<Seq<char>>;

/// `once_cell::sync::Lazy::new` with `build_users` as the initialiser. The
/// cell runs the initialiser at most once, on the first access, so what it
/// holds is what `build_users` returns: the seed entries.
#[verifier::external_body]
fn new_cell() -> (cell: SeededCell)
    ensures
        cell_names(cell) == seed_names(),
{
    SeededCell { cell: Lazy::new(build_users) }
}

/// `once_cell::sync::Lazy::force`: runs the initialiser if no access has
/// done so yet and hands out the list that the cell holds.
#[verifier::external_body]
fn force(cell: &SeededCell) -> (users: &Vec<String>)
    ensures
        names_of(users@) == cell_names(*cell),
{
    Lazy::force(&cell.cell)
}

/// `once_cell::sync::Lazy::force_mut`: as `force`, for a holder with
/// exclusive access. What the holder leaves in the list is what the cell
/// holds afterwards.
#[verifier::external_body]
fn force_mut(cell: &mut SeededCell) -> (users: &mut Vec<String>)
    ensures
        names_of(users@) == cell_names(*old(cell)),
        cell_names(*final(cell)) == names_of(final(users)@),
{
    Lazy::force_mut(&mut cell.cell)
}

/// A list of names behind a lazily built cell. Reading needs shared access,
/// which any number of readers may hold together; writing needs exclusive
/// access, which nobody else holds at the same time. The seed entries are
/// built exactly once, by whichever access comes first, and are in place
/// before that access sees or changes anything.
pub struct LazyRwRegistry {
    users: SeededCell,
}

/// `names` starts with the seed entries.
pub open spec fn seeded(names: Seq<Seq<char>>) -> bool {
    seed_names().is_prefix_of(names)
}

impl View for LazyRwRegistry {
    type V = Seq<Seq<char>>;

    /// The names, in the order in which they came: the seed, then the
    /// writes.
    closed spec fn view(&self) -> Seq<Seq<char>> {
        cell_names(self.users)
    }
}

impl LazyRwRegistry {
    /// Every registry starts with the seed entries, whatever has been
    /// written to it since it was made.
    #[verifier::type_invariant]
    spec fn seed_comes_first(self) -> bool {
        seeded(cell_names(self.users))
    }

    /// A registry that no write has reached: it holds the seed entries.
    pub fn new() -> (registry: Self)
        ensures
            registry@ == seed_names(),
            seeded(registry@),
    {
        LazyRwRegistry { users: new_cell() }
    }

    /// A copy of the names as they are now, whole: never a list in the
    /// making, never half a write. The seed entries come first.
    pub fn read(&self) -> (names: Vec<String>)
        ensures
            names_of(names@) == self@,
            seeded(names_of(names@)),
    {
        proof {
            use_type_invariant(self);
        }
        force(&self.users).clone()
    }

    /// Appends `value` as the last name. What was there stays in front of
    /// it, the seed entries first.
    pub fn write(&mut self, value: String)
        ensures
            final(self)@ == old(self)@.push(value@),
            seeded(old(self)@),
            seeded(final(self)@),
    {
        proof {
            use_type_invariant(&*self);
        }
        // The cell leaves the registry for the length of the append, and a
        // fresh one stands in for it: no borrow of the cell is then open
        // while the registry has to start with the seed.
        let mut taken = LazyRwRegistry::new();
        core::mem::swap(self, &mut taken);
        let LazyRwRegistry { users: mut cell } = taken;
        let users = force_mut(&mut cell);
        let ghost before = users@;
        users.push(value);
        assert(names_of(users@) =~= names_of(before).push(value@));
        *self = LazyRwRegistry { users: cell };
    }

    /// One turn of the foreground loop. The end of the input and the word
    /// `q` both end the loop and change nothing; any other line is appended.
    /// Returns whether the loop goes on.
    pub fn accept(&mut self, input: Option<String>) -> (go_on: bool)
        ensures
            go_on == (input is Some && input->Some_0@ != quit_word()),
            final(self)@ == if go_on {
                old(self)@.push(input->Some_0@)
            } else {
                old(self)@
            },
            seeded(final(self)@),
    {
        proof {
            use_type_invariant(&*self);
        }
        match input {
            None => false,
            Some(line) => {
                if is_quit(line.as_str()) {
                    false
                } else {
                    self.write(line);
                    true
                }
            },
        }
    }

    /// The whole foreground loop over lines that are known in advance:
    /// appends them in order up to the first `q`, or all of them where none
    /// is `q`, and returns how many it appended.
    pub fn accept_all(&mut self, inputs: &Vec<String>) -> (written: usize)
        ensures
            written == accepted_len(names_of(inputs@)),
            final(self)@ == old(self)@ + names_of(inputs@).take(written as int),
            seeded(final(self)@),
    {
        proof {
            use_type_invariant(&*self);
        }
        let ghost names = names_of(inputs@);
        let mut written: usize = 0;
        while written < inputs.len()
            invariant
                names == names_of(inputs@),
                written <= inputs.len(),
                forall|j: int| 0 <= j < written ==> (#[trigger] names[j]) != quit_word(),
                self@ == old(self)@ + names.take(written as int),
                seeded(self@),
            ensures
                written == inputs.len() || names[written as int] == quit_word(),
            decreases inputs.len() - written,
        {
            let line = inputs[written].clone();
            assert(line@ == names[written as int]);
            if !self.accept(Some(line)) {
                break;
            }
            assert(names.take(written as int).push(names[written as int]) =~= names.take(
                written + 1,
            ));
            written = written + 1;
        }
        proof {
            lemma_accepted_len(names, written as int);
        }
        written
    }
}

/// Whatever is appended to a list that starts with the seed entries, the
/// list still starts with them: once the seed is in place nothing that is
/// written later comes before it or replaces it.
pub proof fn lemma_seed_stays(names: Seq<Seq<char>>, written: Seq<Seq<char>>)
    requires
        seeded(names),
    ensures
        seeded(names + written),
        seeded(seed_names() + written),
{
    assert(seed_names().is_prefix_of(seed_names() + written));
}

/// The line that ends the foreground loop.
pub open spec fn quit_word() -> Seq<char> {
    "q"@
}

/// Whether `input` is the line that ends the foreground loop.
pub fn is_quit(input: &str) -> (quit: bool)
    ensures
        quit == (input@ == quit_word()),
{
    proof {
        reveal_strlit("q");
    }
    if input.unicode_len() == 1 {
        let first = input.get_char(0);
        assert(first == 'q' ==> input@ =~= quit_word());
        first == 'q'
    } else {
        false
    }
}

/// How many of `inputs` come before the first `q`: all of them where none is
/// `q`.
pub open spec fn accepted_len(inputs: Seq<Seq<char>>) -> nat
    decreases inputs.len(),
{
    if inputs.len() == 0 || inputs[0] == quit_word() {
        0
    } else {
        1 + accepted_len(inputs.drop_first())
    }
}

/// The position of the first `q`, or the length where there is none, is the
/// number of inputs before the first `q`.
pub proof fn lemma_accepted_len(inputs: Seq<Seq<char>>, stop: int)
    requires
        0 <= stop <= inputs.len(),
        forall|j: int| 0 <= j < stop ==> (#[trigger] inputs[j]) != quit_word(),
        stop == inputs.len() || inputs[stop] == quit_word(),
    ensures
        accepted_len(inputs) == stop,
    decreases inputs.len(),
{
    if stop > 0 {
        let rest = inputs.drop_first();
        assert forall|j: int| 0 <= j < stop - 1 implies (#[trigger] rest[j]) != quit_word() by {
            assert(rest[j] == inputs[j + 1]);
        }
        lemma_accepted_len(rest, stop - 1);
    }
}

} // verus!
