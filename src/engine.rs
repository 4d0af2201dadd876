//! The engine registry: named detection routines supplied by the
//! scripting host, and the rule that turns their verdicts on one payload
//! into the list of matching engines.

use vstd::prelude::*;

verus! {

/// Errors of the engine registry.
#[derive(Debug)]
pub enum UserEngineError {
    /// The scripting host that backs the engines is not running.
    NoLuaVm,
    /// The engine registry is not running.
    NoUserEngine,
    /// Invoking an engine raised an error.
    EngineInvocation {
        /// Name of the engine that failed.
        engine: String,
        /// The error the scripting host reported.
        source: mlua::Error,
    },
}

impl UserEngineError {
    /// Create a new [`UserEngineError::EngineInvocation`].
    pub fn engine_invocation(engine: String, source: mlua::Error) -> (r: UserEngineError)
        ensures
            r == (UserEngineError::EngineInvocation { engine, source }),
    {
        UserEngineError::EngineInvocation { engine, source }
    }
}

/// What invoking one engine on a payload gave: match or no match, or the
/// error the engine raised.
pub type Verdict = Result<bool, mlua::Error>;

/// A registered engine: its name and its callable.
pub type Entry = (Seq<char>, mlua::Function);

/// No two entries share a name.
pub open spec fn unique_names(entries: Seq<Entry>) -> bool {
    forall|i: int, j: int|
        0 <= i < entries.len() && 0 <= j < entries.len() && i != j ==> entries[i].0
            != entries[j].0
}

/// Whether some entry is named `name`.
pub open spec fn has_name(entries: Seq<Entry>, name: Seq<char>) -> bool {
    exists|i: int| 0 <= i < entries.len() && entries[i].0 == name
}

/// The entries after registering `callable` under `name`: an entry of that
/// name has its callable replaced in place, otherwise the entry is added
/// at the end.
pub open spec fn registered(entries: Seq<Entry>, name: Seq<char>, callable: mlua::Function) -> Seq<
    Entry,
> {
    if has_name(entries, name) {
        let i = choose|i: int| 0 <= i < entries.len() && entries[i].0 == name;
        entries.update(i, (name, callable))
    } else {
        entries.push((name, callable))
    }
}

/// The names of the engines whose verdict in `verdicts` is a match, in
/// the order of the engines.
pub open spec fn matched_names(names: Seq<Seq<char>>, verdicts: Seq<Verdict>) -> Seq<Seq<char>>
    decreases verdicts.len(),
{
    if verdicts.len() == 0 {
        Seq::empty()
    } else {
        let earlier = matched_names(names, verdicts.drop_last());
        if verdicts.last() == Ok::<bool, mlua::Error>(true) {
            earlier.push(names[verdicts.len() - 1])
        } else {
            earlier
        }
    }
}

/// Verdict `i` is the first failure in `verdicts`.
pub open spec fn fails_first_at(verdicts: Seq<Verdict>, i: int) -> bool {
    &&& 0 <= i < verdicts.len()
    &&& verdicts[i] is Err
    &&& forall|j: int| 0 <= j < i ==> verdicts[j] is Ok
}

/// The names of `entries`, in order.
pub open spec fn names_of(entries: Seq<Entry>) -> Seq<Seq<char>> {
    entries.map_values(|e: Entry| e.0)
}

/// The views of a list of strings.
pub open spec fn views_of(v: Seq<String>) -> Seq<Seq<char>> {
    v.map_values(|s: String| s@)
}

/// Where `name` already names entry `i`, registering under it replaces
/// that entry's callable.
proof fn lemma_registered_at(entries: Seq<Entry>, i: int, name: Seq<char>, callable: mlua::Function)
    requires
        unique_names(entries),
        0 <= i < entries.len(),
        entries[i].0 == name,
    ensures
        registered(entries, name, callable) == entries.update(i, (name, callable)),
{
    assert(has_name(entries, name));
    let k = choose|k: int| 0 <= k < entries.len() && entries[k].0 == name;
    assert(k == i);
}

/// The registry of engines. Each name is registered at most once.
pub struct UserEngine {
    engines: Vec<(String, mlua::Function)>,
}

impl View for UserEngine {
    type V = Seq<Entry>;

    closed spec fn view(&self) -> Seq<Entry> {
        self.engines@.map_values(|e: (String, mlua::Function)| (e.0@, e.1))
    }
}

impl UserEngine {
    /// The registry is well formed: no two engines share a name.
    pub open spec fn wf(&self) -> bool {
        unique_names(self@)
    }

    /// An empty registry.
    pub fn new() -> (r: UserEngine)
        ensures
            r@ == Seq::<Entry>::empty(),
            r.wf(),
    {
        let r = UserEngine { engines: Vec::new() };
        proof {
            assert(r@ =~= Seq::<Entry>::empty());
        }
        r
    }

    /// An empty registry with room for `capacity` engines.
    pub fn with_capacity(capacity: usize) -> (r: UserEngine)
        ensures
            r@ == Seq::<Entry>::empty(),
            r.wf(),
    {
        let r = UserEngine { engines: Vec::with_capacity(capacity) };
        proof {
            assert(r@ =~= Seq::<Entry>::empty());
        }
        r
    }

    /// The number of registered engines.
    pub fn len(&self) -> (r: usize)
        ensures
            r == self@.len(),
    {
        self.engines.len()
    }

    /// The callable of engine `i`.
    pub fn engine(&self, i: usize) -> (r: &mlua::Function)
        requires
            i < self@.len(),
        ensures
            *r == self@[i as int].1,
    {
        &self.engines[i].1
    }

    /// The name of engine `i`.
    pub fn name(&self, i: usize) -> (r: &String)
        requires
            i < self@.len(),
        ensures
            r@ == self@[i as int].0,
    {
        &self.engines[i].0
    }
}

impl UserEngine {
    /// Register `callable` under `name`. An engine already registered under
    /// that name has its callable replaced in place; the others are
    /// untouched. A new name is added after the others.
    pub fn register(&mut self, name: String, callable: mlua::Function)
        requires
            old(self).wf(),
        ensures
            final(self)@ == registered(old(self)@, name@, callable),
            final(self).wf(),
    {
        let ghost before = self@;
        let ghost target = registered(before, name@, callable);
        let mut i: usize = 0;
        while i < self.engines.len()
            invariant
                self@ == before,
                before == old(self)@,
                target == registered(before, name@, callable),
                unique_names(before),
                i <= before.len(),
                forall|j: int| 0 <= j < i ==> before[j].0 != name@,
            decreases before.len() - i,
        {
            if self.engines[i].0 == name {
                proof {
                    lemma_registered_at(before, i as int, name@, callable);
                }
                let ghost ev = self.engines@;
                let ghost pair = (name, callable);
                let _ = self.engines.remove(i);
                self.engines.insert(i, (name, callable));
                assert(self.engines@ =~= ev.update(i as int, pair));
                assert(self@ =~= target);
                return;
            }
            i += 1;
        }
        let ghost ev = self.engines@;
        let ghost pair = (name, callable);
        self.engines.push((name, callable));
        assert(self.engines@ =~= ev.push(pair));
        proof {
            assert(!has_name(before, name@));
            assert(self@ =~= target);
        }
    }
}

impl UserEngine {
    /// Whether a scan that has gathered `verdicts` must still invoke an
    /// engine: some engine has no verdict yet and none has failed.
    pub fn needs_verdict(&self, verdicts: &Vec<Verdict>) -> (r: bool)
        ensures
            r == (verdicts@.len() < self@.len() && forall|j: int|
                0 <= j < verdicts@.len() ==> verdicts@[j] is Ok),
    {
        if verdicts.len() >= self.engines.len() {
            return false;
        }
        let mut i: usize = 0;
        while i < verdicts.len()
            invariant
                i <= verdicts@.len(),
                forall|j: int| 0 <= j < i ==> verdicts@[j] is Ok,
            decreases verdicts@.len() - i,
        {
            if verdicts[i].is_err() {
                return false;
            }
            i += 1;
        }
        true
    }

    /// The outcome of a scan from the verdicts of the engines, in order, one
    /// for every engine or up to the first that failed:
    /// the names of the engines that matched, or, where an engine failed,
    /// an [`UserEngineError::EngineInvocation`] for the first that failed.
    pub fn tally(&self, verdicts: Vec<Verdict>) -> (r: Result<Vec<String>, UserEngineError>)
        requires
            verdicts@.len() <= self@.len(),
            verdicts@.len() == self@.len() || exists|i: int|
                0 <= i < verdicts@.len() && verdicts@[i] is Err,
        ensures
            (forall|j: int| 0 <= j < verdicts@.len() ==> verdicts@[j] is Ok) ==> (r matches Ok(
                v,
            ) && views_of(v@) == matched_names(names_of(self@), verdicts@)),
            forall|i: int|
                fails_first_at(verdicts@, i) ==> (r matches Err(
                    UserEngineError::EngineInvocation { engine, source },
                ) && engine@ == self@[i].0 && verdicts@[i] == Err::<bool, mlua::Error>(source)),
    {
        let ghost all = verdicts@;
        let ghost names = names_of(self@);
        let mut matched: Vec<String> = Vec::new();
        let mut i: usize = 0;
        while i < verdicts.len() && verdicts[i].is_ok()
            invariant
                verdicts@ == all,
                names == names_of(self@),
                all.len() <= self@.len(),
                i <= all.len(),
                forall|j: int| 0 <= j < i ==> all[j] is Ok,
                views_of(matched@) == matched_names(names, all.subrange(0, i as int)),
            decreases all.len() - i,
        {
            let ghost before = matched@;
            let hit = match &verdicts[i] {
                Ok(b) => *b,
                Err(_) => false,
            };
            if hit {
                matched.push(self.engines[i].0.clone());
            }
            proof {
                let s = all.subrange(0, i as int + 1);
                assert(s.drop_last() =~= all.subrange(0, i as int));
                assert(s.last() == all[i as int]);
                assert(names[i as int] == self@[i as int].0);
                if hit {
                    assert(all[i as int] == Ok::<bool, mlua::Error>(true));
                    assert(views_of(matched@) =~= views_of(before).push(names[i as int]));
                } else {
                    assert(all[i as int] != Ok::<bool, mlua::Error>(true));
                    assert(views_of(matched@) =~= views_of(before));
                }
            }
            i += 1;
        }
        if i < verdicts.len() {
            proof {
                assert(fails_first_at(all, i as int));
                assert forall|k: int| fails_first_at(all, k) implies k == i by {
                    if k < i {
                        assert(all[k] is Ok);
                    } else if k > i {
                        assert(all[i as int] is Ok);
                    }
                }
            }
            let mut rest = verdicts;
            match rest.remove(i) {
                Err(source) => {
                    let engine = self.engines[i].0.clone();
                    proof {
                        assert(engine@ == self@[i as int].0);
                    }
                    Err(UserEngineError::EngineInvocation { engine, source })
                },
                Ok(_) => {
                    proof {
                        assert(false);
                    }
                    Ok(matched)
                },
            }
        } else {
            proof {
                assert(all.subrange(0, all.len() as int) =~= all);
                assert forall|k: int| !fails_first_at(all, k) by {
                    if 0 <= k < all.len() {
                        assert(all[k] is Ok);
                    }
                }
            }
            Ok(matched)
        }
    }
}

/// A request to register an engine under a name, replacing any engine of
/// that name. No reply.
pub struct RegisterUserEngine {
    /// Name to register the engine under.
    pub name: String,
    /// The engine's callable.
    pub spec: mlua::Function,
}

impl RegisterUserEngine {
    /// Create a new [`RegisterUserEngine`] request.
    pub fn using(name: String, callable: mlua::Function) -> (r: RegisterUserEngine)
        ensures
            r.name == name,
            r.spec == callable,
    {
        RegisterUserEngine { name, spec: callable }
    }
}

/// A request to scan bytes against every registered engine. The reply is
/// the names of the engines that matched, or a [`UserEngineError`].
pub struct ScanBytes(pub Vec<u8>);

impl From<Vec<u8>> for ScanBytes {
    fn from(value: Vec<u8>) -> ScanBytes {
        ScanBytes(value)
    }
}

impl vstd::std_specs::convert::FromSpecImpl<Vec<u8>> for ScanBytes {
    open spec fn obeys_from_spec() -> bool {
        true
    }

    open spec fn from_spec(v: Vec<u8>) -> ScanBytes {
        ScanBytes(v)
    }
}

/// Registering a name twice leaves the engines as registering it once with
/// the second callable: one engine of that name, whose callable is the
/// second one.
pub proof fn lemma_register_twice(
    entries: Seq<Entry>,
    name: Seq<char>,
    first: mlua::Function,
    second: mlua::Function,
)
    requires
        unique_names(entries),
    ensures
        registered(registered(entries, name, first), name, second) == registered(
            entries,
            name,
            second,
        ),
        has_name(registered(entries, name, second), name),
        forall|k: int|
            0 <= k < registered(entries, name, second).len() && (#[trigger] registered(
                entries,
                name,
                second,
            )[k]).0 == name ==> registered(entries, name, second)[k].1 == second,
{
    if has_name(entries, name) {
        let i = choose|i: int| 0 <= i < entries.len() && entries[i].0 == name;
        lemma_registered_at(entries, i, name, first);
        lemma_registered_at(entries, i, name, second);
        let once = entries.update(i, (name, first));
        assert(unique_names(once));
        lemma_registered_at(once, i, name, second);
        assert(once.update(i, (name, second)) =~= entries.update(i, (name, second)));
        assert(entries.update(i, (name, second))[i].0 == name);
    } else {
        let n = entries.len() as int;
        let once = entries.push((name, first));
        assert(unique_names(once));
        assert(once[n].0 == name);
        lemma_registered_at(once, n, name, second);
        assert(once.update(n, (name, second)) =~= entries.push((name, second)));
        assert(entries.push((name, second))[n].0 == name);
    }
}

/// A name is among the matches of a scan exactly where some engine of that
/// name gave a match.
pub proof fn lemma_matched_exactly(names: Seq<Seq<char>>, verdicts: Seq<Verdict>)
    requires
        verdicts.len() <= names.len(),
    ensures
        forall|x: Seq<char>|
            #[trigger] matched_names(names, verdicts).contains(x) <==> exists|i: int|
                0 <= i < verdicts.len() && names[i] == x && verdicts[i] == Ok::<bool, mlua::Error>(
                    true,
                ),
    decreases verdicts.len(),
{
    if verdicts.len() > 0 {
        let earlier = verdicts.drop_last();
        let n = verdicts.len() - 1;
        let hit = verdicts[n] == Ok::<bool, mlua::Error>(true);
        lemma_matched_exactly(names, earlier);
        let m = matched_names(names, verdicts);
        let me = matched_names(names, earlier);
        assert forall|x: Seq<char>| #[trigger] m.contains(x) <==> (me.contains(x) || (hit && x
            == names[n])) by {
            if hit {
                assert(m == me.push(names[n]));
                if m.contains(x) {
                    let k = choose|k: int| 0 <= k < m.len() && m[k] == x;
                    if k < me.len() {
                        assert(me[k] == x);
                    }
                }
                if me.contains(x) {
                    let k = choose|k: int| 0 <= k < me.len() && me[k] == x;
                    assert(m[k] == x);
                }
                if x == names[n] {
                    assert(m[me.len() as int] == x);
                }
            } else {
                assert(m == me);
            }
        }
        assert forall|x: Seq<char>|
            #[trigger] m.contains(x) <==> exists|i: int|
                0 <= i < verdicts.len() && names[i] == x && verdicts[i] == Ok::<bool, mlua::Error>(
                    true,
                ) by {
            if me.contains(x) {
                let i = choose|i: int|
                    0 <= i < earlier.len() && names[i] == x && earlier[i] == Ok::<bool, mlua::Error>(
                        true,
                    );
                assert(verdicts[i] == earlier[i]);
            }
            if exists|i: int|
                0 <= i < verdicts.len() && names[i] == x && verdicts[i] == Ok::<bool, mlua::Error>(
                    true,
                ) {
                let i = choose|i: int|
                    0 <= i < verdicts.len() && names[i] == x && verdicts[i] == Ok::<bool, mlua::Error>(
                        true,
                    );
                if i < n {
                    assert(earlier[i] == verdicts[i]);
                }
            }
        }
    }
}

/// Where no two engines share a name, no name is among the matches twice.
pub proof fn lemma_matched_distinct(names: Seq<Seq<char>>, verdicts: Seq<Verdict>)
    requires
        verdicts.len() <= names.len(),
        names.no_duplicates(),
    ensures
        matched_names(names, verdicts).no_duplicates(),
    decreases verdicts.len(),
{
    if verdicts.len() > 0 {
        let earlier = verdicts.drop_last();
        let n = verdicts.len() - 1;
        lemma_matched_distinct(names, earlier);
        if verdicts[n] == Ok::<bool, mlua::Error>(true) {
            lemma_matched_exactly(names, earlier);
            let me = matched_names(names, earlier);
            if me.contains(names[n]) {
                let i = choose|i: int|
                    0 <= i < earlier.len() && names[i] == names[n] && earlier[i] == Ok::<
                        bool,
                        mlua::Error,
                    >(true);
                assert(i != n);
            }
            assert(matched_names(names, verdicts) == me.push(names[n]));
            assert forall|a: int, b: int|
                0 <= a < b < me.len() + 1 implies me.push(names[n])[a] != me.push(names[n])[b] by {
                if b == me.len() {
                    assert(me.push(names[n])[a] == me[a]);
                }
            }
        }
    }
}

/// The names of a registry's engines are distinct.
pub proof fn lemma_names_distinct(entries: Seq<Entry>)
    requires
        unique_names(entries),
    ensures
        names_of(entries).no_duplicates(),
{
    assert forall|i: int, j: int|
        0 <= i < j < names_of(entries).len() implies names_of(entries)[i] != names_of(entries)[j] by {
        assert(entries[i].0 != entries[j].0);
    }
}

} // verus!
