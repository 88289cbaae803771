//! The strategies behind the primitives that let several threads use them
//! at once: an atomic register for the counters, a mutex for the
//! collection, a read-write lock for the registry.
//!
//! What takes `&self` here may be called by any number of threads on one
//! value. What such a call finds depends on what the other threads have
//! done by then, and its contract promises only what holds whatever they
//! did. What is done while a lock is held is stated exactly, over what the
//! holder found: see `HeldCollection`, `ReadRegistry` and `HeldRegistry`.
//! What one step does to the state it reaches is stated where the state is
//! defined: in `crate::counter`, `crate::collection` and `crate::registry`.

use crate::collection::MutexCollection;
use crate::registry::{names_of, quit_word, seeded, LazyRwRegistry};
use crate::runner::{RunError, WorkerOutcome};
use std::sync::atomic::AtomicI32;
use std::sync::atomic::Ordering;
use std::sync::Mutex;
use std::sync::MutexGuard;
use std::sync::PoisonError;
use std::sync::RwLock;
use std::sync::RwLockReadGuard;
use std::sync::RwLockWriteGuard;
use vstd::prelude::*;

verus! {

/// `std::sync::Mutex`, a lock with one holder at a time.
#[verifier::external_type_specification]
#[verifier::external_body]
#[verifier::reject_recursive_types(T)]
pub struct ExMutex<T: ?Sized>(Mutex<T>);

/// `std::sync::MutexGuard`, the hold on a mutex. The mutex is free again
/// when the guard goes out of scope, on whatever path.
#[verifier::external_type_specification]
#[verifier::external_body]
#[verifier::reject_recursive_types(T)]
pub struct ExMutexGuard<'a, T: ?Sized + 'a>(MutexGuard<'a, T>);

/// `std::sync::RwLock`, a lock with many readers or one writer at a time.
#[verifier::external_type_specification]
#[verifier::external_body]
#[verifier::reject_recursive_types(T)]
pub struct ExRwLock<T: ?Sized>(RwLock<T>);

/// `std::sync::RwLockReadGuard`, one reader's hold on a read-write lock.
#[verifier::external_type_specification]
#[verifier::external_body]
#[verifier::reject_recursive_types(T)]
pub struct ExRwLockReadGuard<'a, T: ?Sized>(RwLockReadGuard<'a, T>);

/// `std::sync::RwLockWriteGuard`, the writer's hold on a read-write lock.
#[verifier::external_type_specification]
#[verifier::external_body]
#[verifier::reject_recursive_types(T)]
pub struct ExRwLockWriteGuard<'a, T: ?Sized + 'a>(RwLockWriteGuard<'a, T>);

/// `std::sync::PoisonError`, what a lock answers with once a holder has
/// panicked while holding it.
#[verifier::external_type_specification]
#[verifier::external_body]
#[verifier::reject_recursive_types(T)]
pub struct ExPoisonError<T>(PoisonError<T>);

/// `Mutex::new`: a free mutex around `collection`.
#[verifier::external_body]
fn mutex_new(collection: MutexCollection) -> Mutex<MutexCollection> {
    Mutex::new(collection)
}

/// `Mutex::lock`: waits until the mutex is free and takes it. Nothing is
/// promised of the outcome: whether the lock is poisoned, and what it
/// guards by now, is up to the threads that held it before.
///
/// Called by a thread that holds this mutex already, it may panic or never
/// return. No thread does so: the mutex is a private field, only
/// `SharedCollection::lock` calls this, and the functions that call `lock`
/// let go of the guard before they return.
#[verifier::external_body]
fn mutex_lock<'a>(mutex: &'a Mutex<MutexCollection>) -> Result<
    MutexGuard<'a, MutexCollection>,
    PoisonError<MutexGuard<'a, MutexCollection>>,
> {
    mutex.lock()
}

/// What the mutex guards for as long as `guard` holds it. Nobody else
/// reaches it meanwhile, so it changes only through `guard`.
pub uninterp spec fn held_numbers(guard: MutexGuard<'_, MutexCollection>) -> Seq<i32>;

/// The `Deref` of `MutexGuard`: what the mutex guards, to look at.
#[verifier::external_body]
fn mutex_seen<'a, 'b>(guard: &'b MutexGuard<'a, MutexCollection>) -> (numbers:
    &'b MutexCollection)
    ensures
        numbers@ == held_numbers(*guard),
{
    &**guard
}

/// The `DerefMut` of `MutexGuard`: exclusive access to what the mutex
/// guards, for as long as the guard is borrowed. What the borrower leaves
/// there is what the guard holds afterwards.
#[verifier::external_body]
fn mutex_held<'a, 'b>(guard: &'b mut MutexGuard<'a, MutexCollection>) -> (numbers:
    &'b mut MutexCollection)
    ensures
        numbers@ == held_numbers(*old(guard)),
        held_numbers(*final(guard)) == final(numbers)@,
{
    &mut **guard
}

/// `RwLock::new`: a free read-write lock around `registry`.
#[verifier::external_body]
fn rwlock_new(registry: LazyRwRegistry) -> RwLock<LazyRwRegistry> {
    RwLock::new(registry)
}

/// `RwLock::read`: waits until no writer holds the lock and joins the
/// readers. Nothing is promised of the outcome.
///
/// Called by a thread that holds this lock already, it may panic or never
/// return. No thread does so: the lock is a private field, only
/// `SharedRegistry::read_lock` calls this, and the functions that call
/// `read_lock` let go of the guard before they return.
#[verifier::external_body]
fn rwlock_read<'a>(lock: &'a RwLock<LazyRwRegistry>) -> Result<
    RwLockReadGuard<'a, LazyRwRegistry>,
    PoisonError<RwLockReadGuard<'a, LazyRwRegistry>>,
> {
    lock.read()
}

/// `RwLock::write`: waits until nobody holds the lock and takes it alone.
/// Nothing is promised of the outcome.
///
/// Called by a thread that holds this lock already, it may panic or never
/// return. No thread does so: the lock is a private field, only
/// `SharedRegistry::write_lock` calls this, and the functions that call
/// `write_lock` let go of the guard before they return.
#[verifier::external_body]
fn rwlock_write<'a>(lock: &'a RwLock<LazyRwRegistry>) -> Result<
    RwLockWriteGuard<'a, LazyRwRegistry>,
    PoisonError<RwLockWriteGuard<'a, LazyRwRegistry>>,
> {
    lock.write()
}

/// What the lock guards for as long as the reader `guard` holds it. No
/// writer reaches it meanwhile, so it does not change.
pub uninterp spec fn read_names(guard: RwLockReadGuard<'_, LazyRwRegistry>) -> Seq<Seq<char>>;

/// What the lock guards for as long as the writer `guard` holds it. Nobody
/// else reaches it meanwhile, so it changes only through `guard`.
pub uninterp spec fn held_names(guard: RwLockWriteGuard<'_, LazyRwRegistry>) -> Seq<Seq<char>>;

/// The `Deref` of `RwLockReadGuard`: shared access to what the lock guards.
#[verifier::external_body]
fn read_held<'a, 'b>(guard: &'b RwLockReadGuard<'a, LazyRwRegistry>) -> (users:
    &'b LazyRwRegistry)
    ensures
        users@ == read_names(*guard),
{
    &**guard
}

/// The `DerefMut` of `RwLockWriteGuard`: exclusive access to what the lock
/// guards, for as long as the guard is borrowed. What the borrower leaves
/// there is what the guard holds afterwards.
#[verifier::external_body]
fn write_held<'a, 'b>(guard: &'b mut RwLockWriteGuard<'a, LazyRwRegistry>) -> (users:
    &'b mut LazyRwRegistry)
    ensures
        users@ == held_names(*old(guard)),
        held_names(*final(guard)) == final(users)@,
{
    &mut **guard
}

/// An atomic counter that threads share. No call on it ever waits.
pub struct SharedAtomicCounter {
    value: AtomicI32,
}

impl SharedAtomicCounter {
    /// A counter at zero.
    pub fn new() -> Self {
        SharedAtomicCounter { value: AtomicI32::new(0) }
    }

    /// One indivisible fetch-and-add of one, with relaxed ordering: only
    /// the update itself is atomic, nothing is ordered around it. Returns
    /// the value from before.
    pub fn increment(&self) -> i32 {
        self.value.fetch_add(1, Ordering::Relaxed)
    }

    /// One indivisible load.
    pub fn read(&self) -> i32 {
        self.value.load(Ordering::Relaxed)
    }
}

/// An unsynchronised counter that threads share. Each half of an increment
/// is a step of its own, and between the two any other thread may move:
/// updates get lost, and nothing reports it.
pub struct SharedUnsynchronizedCounter {
    value: AtomicI32,
}

impl SharedUnsynchronizedCounter {
    /// A counter at zero.
    pub fn new() -> Self {
        SharedUnsynchronizedCounter { value: AtomicI32::new(0) }
    }

    /// The first half of an increment.
    pub fn load(&self) -> i32 {
        self.value.load(Ordering::Relaxed)
    }

    /// The second half of an increment.
    pub fn store(&self, value: i32) {
        self.value.store(value, Ordering::Relaxed)
    }

    /// A load, and then a store of what was loaded plus one, whatever the
    /// counter has become in between.
    pub fn increment(&self) {
        let loaded = self.load();
        self.store(loaded.wrapping_add(1));
    }

    /// The raw stored value.
    pub fn read(&self) -> i32 {
        self.load()
    }
}

/// The collection while its mutex is held: for as long as this value
/// lives, its holder is the only one to reach the collection. The mutex is
/// free again when the value goes out of scope, on whatever path.
pub struct HeldCollection<'a> {
    guard: MutexGuard<'a, MutexCollection>,
}

impl<'a> View for HeldCollection<'a> {
    type V = Seq<i32>;

    /// The elements of the collection, oldest first.
    closed spec fn view(&self) -> Seq<i32> {
        held_numbers(self.guard)
    }
}

impl<'a> HeldCollection<'a> {
    /// What an attempt to take the mutex comes to: the collection as the
    /// mutex handed it over, or a `SynchronizationFailure` where the mutex
    /// had become unusable.
    pub fn from_lock(
        access: Result<
            MutexGuard<'a, MutexCollection>,
            PoisonError<MutexGuard<'a, MutexCollection>>,
        >,
    ) -> (held: Result<HeldCollection<'a>, RunError>)
        ensures
            match access {
                Ok(guard) => held is Ok && held->Ok_0@ == held_numbers(guard),
                Err(_) => held is Err && held->Err_0 == RunError::SynchronizationFailure,
            },
    {
        match access {
            Ok(guard) => Ok(HeldCollection { guard }),
            Err(_) => Err(RunError::SynchronizationFailure),
        }
    }

    /// Inserts `value` at the end.
    pub fn append(&mut self, value: i32)
        ensures
            final(self)@ == old(self)@.push(value),
    {
        let numbers = mutex_held(&mut self.guard);
        numbers.append(value);
    }

    /// A copy of the elements as they are now.
    pub fn snapshot(&self) -> (copy: Vec<i32>)
        ensures
            copy@ == self@,
    {
        mutex_seen(&self.guard).snapshot()
    }
}

/// A collection that threads share behind a mutex. A call waits until the
/// mutex is free, holds it for its own length only, and lets go on every
/// path; no call takes the mutex twice.
pub struct SharedCollection {
    numbers: Mutex<MutexCollection>,
}

impl SharedCollection {
    /// An empty collection.
    pub fn new() -> Self {
        SharedCollection { numbers: mutex_new(MutexCollection::new()) }
    }

    /// Waits for the mutex and takes it. What the collection holds by then
    /// is up to the threads that held the mutex before. Fails only where
    /// the mutex has become unusable. The guard never leaves this module:
    /// whoever calls this lets go of it before returning.
    fn lock(&self) -> (held: Result<HeldCollection<'_>, RunError>)
        ensures
            held is Err ==> held->Err_0 == RunError::SynchronizationFailure,
    {
        HeldCollection::from_lock(mutex_lock(&self.numbers))
    }

    /// Takes the mutex and appends `value`. Fails, without appending, only
    /// where the mutex has become unusable.
    pub fn append(&self, value: i32) -> (done: Result<(), RunError>)
        ensures
            done is Err ==> done == Err::<(), RunError>(RunError::SynchronizationFailure),
    {
        match self.lock() {
            Ok(mut held) => {
                held.append(value);
                Ok(())
            },
            Err(error) => Err(error),
        }
    }

    /// Takes the mutex and copies the elements. Fails only where the mutex
    /// has become unusable.
    pub fn snapshot(&self) -> (copy: Result<Vec<i32>, RunError>)
        ensures
            copy is Err ==> copy == Err::<Vec<i32>, RunError>(RunError::SynchronizationFailure),
    {
        match self.lock() {
            Ok(held) => Ok(held.snapshot()),
            Err(error) => Err(error),
        }
    }
}

/// The registry while a reader holds its lock: for as long as this value
/// lives no writer reaches the registry, so every look at it finds the same
/// whole list.
pub struct ReadRegistry<'a> {
    guard: RwLockReadGuard<'a, LazyRwRegistry>,
}

impl<'a> View for ReadRegistry<'a> {
    type V = Seq<Seq<char>>;

    /// The names of the registry, in the order in which they came.
    closed spec fn view(&self) -> Seq<Seq<char>> {
        read_names(self.guard)
    }
}

impl<'a> ReadRegistry<'a> {
    /// What an attempt to join the readers comes to: the registry as the
    /// lock handed it over, or a `SynchronizationFailure` where the lock
    /// had become unusable.
    pub fn from_lock(
        access: Result<
            RwLockReadGuard<'a, LazyRwRegistry>,
            PoisonError<RwLockReadGuard<'a, LazyRwRegistry>>,
        >,
    ) -> (held: Result<ReadRegistry<'a>, RunError>)
        ensures
            match access {
                Ok(guard) => held is Ok && held->Ok_0@ == read_names(guard),
                Err(_) => held is Err && held->Err_0 == RunError::SynchronizationFailure,
            },
    {
        match access {
            Ok(guard) => Ok(ReadRegistry { guard }),
            Err(_) => Err(RunError::SynchronizationFailure),
        }
    }

    /// A copy of the names. The seed entries come first, as in every
    /// registry.
    pub fn names(&self) -> (names: Vec<String>)
        ensures
            names_of(names@) == self@,
            seeded(names_of(names@)),
    {
        read_held(&self.guard).read()
    }
}

/// The registry while the writer holds its lock: for as long as this value
/// lives, its holder is the only one to reach the registry.
pub struct HeldRegistry<'a> {
    guard: RwLockWriteGuard<'a, LazyRwRegistry>,
}

impl<'a> View for HeldRegistry<'a> {
    type V = Seq<Seq<char>>;

    /// The names of the registry, in the order in which they came.
    closed spec fn view(&self) -> Seq<Seq<char>> {
        held_names(self.guard)
    }
}

impl<'a> HeldRegistry<'a> {
    /// What an attempt to take the lock alone comes to: the registry as the
    /// lock handed it over, or a `SynchronizationFailure` where the lock
    /// had become unusable.
    pub fn from_lock(
        access: Result<
            RwLockWriteGuard<'a, LazyRwRegistry>,
            PoisonError<RwLockWriteGuard<'a, LazyRwRegistry>>,
        >,
    ) -> (held: Result<HeldRegistry<'a>, RunError>)
        ensures
            match access {
                Ok(guard) => held is Ok && held->Ok_0@ == held_names(guard),
                Err(_) => held is Err && held->Err_0 == RunError::SynchronizationFailure,
            },
    {
        match access {
            Ok(guard) => Ok(HeldRegistry { guard }),
            Err(_) => Err(RunError::SynchronizationFailure),
        }
    }

    /// Appends `value` as the last name.
    pub fn write(&mut self, value: String)
        ensures
            final(self)@ == old(self)@.push(value@),
    {
        let users = write_held(&mut self.guard);
        users.write(value);
    }

    /// One turn of the foreground loop: the end of the input and the word
    /// `q` both end the loop and change nothing; any other line is
    /// appended. Returns whether the loop goes on.
    pub fn accept(&mut self, input: Option<String>) -> (go_on: bool)
        ensures
            go_on == (input is Some && input->Some_0@ != quit_word()),
            final(self)@ == if go_on {
                old(self)@.push(input->Some_0@)
            } else {
                old(self)@
            },
    {
        let users = write_held(&mut self.guard);
        users.accept(input)
    }
}

/// A registry that threads share behind a read-write lock. Readers share
/// the lock with each other; a writer has it alone. The seed entries are
/// built by the first access, under the lock.
pub struct SharedRegistry {
    users: RwLock<LazyRwRegistry>,
}

impl SharedRegistry {
    /// A registry that no access has reached yet.
    pub fn new() -> Self {
        SharedRegistry { users: rwlock_new(LazyRwRegistry::new()) }
    }

    /// Waits until no writer holds the lock and joins the readers. What
    /// the registry holds by then is up to the writers before. Fails only
    /// where the lock has become unusable. The guard never leaves this
    /// module: whoever calls this lets go of it before returning.
    fn read_lock(&self) -> (held: Result<ReadRegistry<'_>, RunError>)
        ensures
            held is Err ==> held->Err_0 == RunError::SynchronizationFailure,
    {
        ReadRegistry::from_lock(rwlock_read(&self.users))
    }

    /// Waits until nobody holds the lock and takes it alone. Fails only
    /// where the lock has become unusable. The guard never leaves this
    /// module: whoever calls this lets go of it before returning.
    fn write_lock(&self) -> (held: Result<HeldRegistry<'_>, RunError>)
        ensures
            held is Err ==> held->Err_0 == RunError::SynchronizationFailure,
    {
        HeldRegistry::from_lock(rwlock_write(&self.users))
    }

    /// Joins the readers and copies the names. Whatever the writers have
    /// done by then, the copy starts with the seed entries: every write is
    /// an append, and the seed is in place before the first. Fails only
    /// where the lock has become unusable.
    pub fn read(&self) -> (names: Result<Vec<String>, RunError>)
        ensures
            match names {
                Ok(names) => seeded(names_of(names@)),
                Err(error) => error == RunError::SynchronizationFailure,
            },
    {
        match self.read_lock() {
            Ok(held) => Ok(held.names()),
            Err(error) => Err(error),
        }
    }

    /// Takes the lock alone and appends `value`. Fails, without appending,
    /// only where the lock has become unusable.
    pub fn write(&self, value: String) -> (done: Result<(), RunError>)
        ensures
            done is Err ==> done == Err::<(), RunError>(RunError::SynchronizationFailure),
    {
        match self.write_lock() {
            Ok(mut held) => {
                held.write(value);
                Ok(())
            },
            Err(error) => Err(error),
        }
    }

    /// One turn of the foreground loop: takes the lock alone and lets the
    /// registry accept `input`. Whether the loop goes on depends on `input`
    /// alone. Fails only where the lock has become unusable.
    pub fn accept(&self, input: Option<String>) -> (go_on: Result<bool, RunError>)
        ensures
            match go_on {
                Ok(go_on) => go_on == (input is Some && input->Some_0@ != quit_word()),
                Err(error) => error == RunError::SynchronizationFailure,
            },
    {
        match self.write_lock() {
            Ok(mut held) => Ok(held.accept(input)),
            Err(error) => Err(error),
        }
    }
}

/// The work of one worker on an atomic counter: `ops` increments. It
/// cannot fail.
pub fn atomic_worker(counter: &SharedAtomicCounter, ops: usize) -> (outcome: WorkerOutcome)
    ensures
        outcome == WorkerOutcome::Completed,
{
    let mut done: usize = 0;
    while done < ops
        invariant
            done <= ops,
        decreases ops - done,
    {
        counter.increment();
        done = done + 1;
    }
    WorkerOutcome::Completed
}

/// The work of one worker on an unsynchronised counter: `ops` increments of
/// two steps each. It cannot fail, whatever becomes of its updates.
pub fn unsynchronized_worker(counter: &SharedUnsynchronizedCounter, ops: usize) -> (outcome:
    WorkerOutcome)
    ensures
        outcome == WorkerOutcome::Completed,
{
    let mut done: usize = 0;
    while done < ops
        invariant
            done <= ops,
        decreases ops - done,
    {
        counter.increment();
        done = done + 1;
    }
    WorkerOutcome::Completed
}

/// The work of one worker on a collection: `ops` appends of `value`. It
/// stops at the first append that finds the mutex unusable.
pub fn collection_worker(collection: &SharedCollection, value: i32, ops: usize) -> (outcome:
    WorkerOutcome)
    ensures
        outcome == WorkerOutcome::Completed || outcome == WorkerOutcome::LockUnusable,
        ops == 0 ==> outcome == WorkerOutcome::Completed,
{
    let mut done: usize = 0;
    while done < ops
        invariant
            done <= ops,
        decreases ops - done,
    {
        match WorkerOutcome::after(&collection.append(value)) {
            WorkerOutcome::Completed => {},
            WorkerOutcome::Faulted => {
                return WorkerOutcome::Faulted;
            },
            WorkerOutcome::LockUnusable => {
                return WorkerOutcome::LockUnusable;
            },
        }
        done = done + 1;
    }
    WorkerOutcome::Completed
}

} // verus!
