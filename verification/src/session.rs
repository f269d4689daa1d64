//! The session store and state registry: a fixed grid of pseudo-terminal
//! session slots, each carrying metadata and a bounded output buffer, plus
//! the record of which slot currently has a live engine attached.
//!
//! The surrounding runtime owns the operating-system handles (the terminal
//! pair, the child process, the reader thread); this module owns every
//! decision about them. Each command is a verified transition whose contract
//! pins the new state, and whose result tells the runtime which outside
//! action to perform (which process to signal, whether a write may proceed).
//! The well-formedness invariant — a slot holds a process id exactly when its
//! status is active, and the registry's process id always agrees with the
//! attached engine — is established by the constructor and preserved by every
//! transition.

use vstd::prelude::*;
use vstd::string::*;
use crate::MAX_CELLS;
use crate::buffer::spec_append_trim;
use crate::buffer::append_chunk;
use crate::text::{lemma_lex_total, lemma_lex_trans, lex_leq, push_u64, spec_u64_digits, str_eq, str_lex_leq};

verus! {

/// Whether a session slot currently runs a child process.
#[derive(Clone, Copy, Debug, PartialEq, Eq, Structural)]
pub enum Status {
    Idle,
    Active,
}

/// The metadata of one session slot.
#[derive(Debug)]
pub struct CellState {
    /// The slot's fixed identifier.
    pub id: String,
    /// Free-form display label.
    pub theme: String,
    /// The attached child process, when the slot is active.
    pub pid: Option<u32>,
    /// Bounded trailing window of the session's output.
    pub last_output: String,
    /// Idle or active.
    pub status: Status,
    /// Wall-clock milliseconds of the last change.
    pub updated_at: u64,
}

/// The mathematical value of one session slot.
pub ghost struct CellModel {
    pub id: Seq<char>,
    pub theme: Seq<char>,
    pub pid: Option<u32>,
    pub last_output: Seq<char>,
    pub status: Status,
    pub updated_at: u64,
}

impl View for CellState {
    type V = CellModel;

    open spec fn view(&self) -> CellModel {
        CellModel {
            id: self.id@,
            theme: self.theme@,
            pid: self.pid,
            last_output: self.last_output@,
            status: self.status,
            updated_at: self.updated_at,
        }
    }
}

impl Clone for CellState {
    /// Cloning a slot preserves its value.
    fn clone(&self) -> (r: Self)
        ensures
            r@ == self@,
    {
        CellState {
            id: self.id.clone(),
            theme: self.theme.clone(),
            pid: self.pid,
            last_output: self.last_output.clone(),
            status: self.status,
            updated_at: self.updated_at,
        }
    }
}

/// A slot is well formed when it holds a process id exactly while active.
pub open spec fn cell_wf(c: CellModel) -> bool {
    c.pid is Some <==> c.status == Status::Active
}

/// The id of slot `i`.
pub open spec fn spec_slot_id(i: int) -> Seq<char> {
    "slot-"@ + spec_u64_digits(i as u64)
}

/// Builds the id of slot `i`.
pub fn slot_id(i: usize) -> (r: String)
    ensures
        r@ == spec_slot_id(i as int),
{
    let mut s = String::from_str("slot-");
    push_u64(&mut s, i as u64);
    s
}

/// The mathematical value of the whole multiplexer: the registry rows and
/// the store of attached engines, indexed by slot.
pub ghost struct MuxModel {
    pub cells: Seq<CellModel>,
    pub attached: Seq<Option<u32>>,
}

impl MuxModel {
    /// Every slot is well formed, carries its fixed id, and the registry's
    /// process id agrees with the attached engine.
    pub open spec fn wf(self) -> bool {
        &&& self.cells.len() == MAX_CELLS
        &&& self.attached.len() == MAX_CELLS
        &&& forall|i: int|
            0 <= i < MAX_CELLS ==> cell_wf(#[trigger] self.cells[i])
                && self.cells[i].pid == self.attached[i]
                && self.cells[i].id == spec_slot_id(i)
    }
}

/// The session multiplexer: the fixed grid of slots and the engines attached
/// to them.
pub struct Multiplexer {
    cells: Vec<CellState>,
    attached: Vec<Option<u32>>,
}

/// The slot models of a row of slots.
pub open spec fn cell_views(cells: Seq<CellState>) -> Seq<CellModel> {
    Seq::new(cells.len(), |i: int| cells[i]@)
}

impl View for Multiplexer {
    type V = MuxModel;

    closed spec fn view(&self) -> MuxModel {
        MuxModel { cells: cell_views(self.cells@), attached: self.attached@ }
    }
}

/// The saved output for `id` in the persisted slot-to-output listing: the
/// first entry under that id, or empty when there is none.
pub open spec fn spec_saved_lookup(saved: Seq<(String, String)>, id: Seq<char>) -> Seq<char>
    decreases saved.len(),
{
    if saved.len() == 0 {
        Seq::empty()
    } else if saved[0].0@ == id {
        saved[0].1@
    } else {
        spec_saved_lookup(saved.drop_first(), id)
    }
}

/// Looks up the saved output for `id`, or empty when there is none.
fn lookup_saved(saved: &Vec<(String, String)>, id: &str) -> (r: String)
    ensures
        r@ == spec_saved_lookup(saved@, id@),
{
    let n = saved.len();
    let mut j: usize = 0;
    proof {
        assert(saved@.skip(0) =~= saved@);
    }
    while j < n
        invariant
            0 <= j <= n,
            n == saved@.len(),
            spec_saved_lookup(saved@, id@) == spec_saved_lookup(saved@.skip(j as int), id@),
        decreases n - j,
    {
        if str_eq(saved[j].0.as_str(), id) {
            proof {
                assert(saved@.skip(j as int)[0] == saved@[j as int]);
            }
            return saved[j].1.clone();
        }
        proof {
            assert(saved@.skip(j as int).drop_first() =~= saved@.skip(j as int + 1));
            assert(saved@.skip(j as int)[0] == saved@[j as int]);
        }
        j = j + 1;
    }
    proof {
        assert(saved@.skip(n as int).len() == 0);
    }
    String::new()
}

/// The state of a freshly initialized slot `i` at time `now`, with its
/// buffer restored from the persisted listing `saved`.
pub open spec fn spec_initial_cell(saved: Seq<(String, String)>, i: int, now: u64) -> CellModel {
    CellModel {
        id: spec_slot_id(i),
        theme: Seq::empty(),
        pid: None,
        last_output: spec_saved_lookup(saved, spec_slot_id(i)),
        status: Status::Idle,
        updated_at: now,
    }
}

/// Slot `i` cleared of its engine at time `now`: no process id, idle.
pub open spec fn spec_cleared(c: CellModel, now: u64) -> CellModel {
    CellModel { pid: None, status: Status::Idle, updated_at: now, ..c }
}

/// Slot `i` carrying the engine with process id `pid` at time `now`.
pub open spec fn spec_attached_cell(c: CellModel, pid: u32, now: u64) -> CellModel {
    CellModel { pid: Some(pid), status: Status::Active, updated_at: now, ..c }
}

/// The first spawn step on the model: slot `i` loses its engine and its
/// registry row is cleared.
pub open spec fn spec_begin_spawn(m: MuxModel, i: int, now: u64) -> MuxModel {
    MuxModel {
        cells: m.cells.update(i, spec_cleared(m.cells[i], now)),
        attached: m.attached.update(i, None),
    }
}

/// The second spawn step on the model: slot `i` carries the new engine.
pub open spec fn spec_commit_spawn(m: MuxModel, i: int, pid: u32, now: u64) -> MuxModel {
    MuxModel {
        cells: m.cells.update(i, spec_attached_cell(m.cells[i], pid, now)),
        attached: m.attached.update(i, Some(pid)),
    }
}

/// A chunk of output arriving on the model: slot `i`'s buffer grows (and is
/// trimmed), its timestamp moves, and it is marked active while an engine is
/// attached.
pub open spec fn spec_on_output(m: MuxModel, i: int, chunk: Seq<char>, now: u64) -> MuxModel {
    let c = m.cells[i];
    let updated = CellModel {
        last_output: spec_append_trim(c.last_output, chunk),
        status: if m.attached[i] is Some {
            Status::Active
        } else {
            c.status
        },
        updated_at: now,
        ..c
    };
    MuxModel { cells: m.cells.update(i, updated), attached: m.attached }
}

/// Termination of every attached engine on the model: rows with an engine
/// are cleared, rows without one are untouched.
pub open spec fn spec_terminate_all(m: MuxModel, now: u64) -> MuxModel {
    MuxModel {
        cells: Seq::new(
            m.cells.len(),
            |i: int|
                if m.attached[i] is Some {
                    spec_cleared(m.cells[i], now)
                } else {
                    m.cells[i]
                },
        ),
        attached: Seq::new(m.attached.len(), |i: int| None),
    }
}

/// The process ids of the attached engines, in slot order.
pub open spec fn spec_live_pids(att: Seq<Option<u32>>) -> Seq<u32>
    decreases att.len(),
{
    if att.len() == 0 {
        Seq::empty()
    } else if att.last() is Some {
        spec_live_pids(att.drop_last()).push(att.last().unwrap())
    } else {
        spec_live_pids(att.drop_last())
    }
}

impl Multiplexer {
    /// Initializes the fixed grid of slots: every slot idle, no process
    /// attached, label empty, buffer restored from the persisted listing.
    pub fn new(saved: &Vec<(String, String)>, now: u64) -> (m: Multiplexer)
        ensures
            m@.wf(),
            forall|i: int| 0 <= i < MAX_CELLS ==> m@.cells[i] == spec_initial_cell(
                saved@,
                i,
                now,
            ),
    {
        let mut cells: Vec<CellState> = Vec::new();
        let mut attached: Vec<Option<u32>> = Vec::new();
        let mut i: usize = 0;
        while i < MAX_CELLS
            invariant
                0 <= i <= MAX_CELLS,
                cells@.len() == i,
                attached@.len() == i,
                forall|k: int| 0 <= k < i ==> cells@[k]@ == spec_initial_cell(saved@, k, now),
                forall|k: int| 0 <= k < i ==> attached@[k] is None,
            decreases MAX_CELLS - i,
        {
            let id = slot_id(i);
            let restored = lookup_saved(saved, id.as_str());
            cells.push(CellState {
                id,
                theme: String::new(),
                pid: None,
                last_output: restored,
                status: Status::Idle,
                updated_at: now,
            });
            attached.push(None);
            i = i + 1;
        }
        let m = Multiplexer { cells, attached };
        proof {
            assert forall|k: int| 0 <= k < MAX_CELLS implies m@.cells[k] == spec_initial_cell(
                saved@,
                k,
                now,
            ) by {
                assert(m@.cells[k] == m.cells@[k]@);
            }
        }
        m
    }

    /// The slot whose id is `cell_id`, when there is one.
    pub fn find_cell(&self, cell_id: &str) -> (r: Option<usize>)
        requires
            self@.wf(),
        ensures
            match r {
                Some(i) => 0 <= i < MAX_CELLS && self@.cells[i as int].id == cell_id@,
                None => forall|i: int|
                    0 <= i < MAX_CELLS ==> #[trigger] self@.cells[i].id != cell_id@,
            },
    {
        let n = self.cells.len();
        let mut i: usize = 0;
        while i < n
            invariant
                0 <= i <= n,
                n == MAX_CELLS,
                self@.wf(),
                n == self.cells@.len(),
                forall|k: int| 0 <= k < i ==> #[trigger] self@.cells[k].id != cell_id@,
            decreases n - i,
        {
            if str_eq(self.cells[i].id.as_str(), cell_id) {
                proof {
                    assert(self@.cells[i as int].id == self.cells@[i as int]@.id);
                }
                return Some(i);
            }
            proof {
                assert(self@.cells[i as int].id == self.cells@[i as int]@.id);
            }
            i = i + 1;
        }
        None
    }

    /// Whether an engine is currently attached to slot `i`.
    pub fn has_engine(&self, i: usize) -> (r: bool)
        requires
            self@.wf(),
            i < MAX_CELLS,
        ensures
            r == (self@.attached[i as int] is Some),
    {
        self.attached[i].is_some()
    }

    /// The first step of a spawn: detaches whatever engine slot `i` holds and
    /// clears the registry row, so that the runtime can signal the old child
    /// to terminate before it spawns the new one. Returns the process id to
    /// signal, when there was one. Afterwards no engine is attached to the
    /// slot, so two live engines can never share a slot.
    pub fn begin_spawn(&mut self, i: usize, now: u64) -> (prior: Option<u32>)
        requires
            old(self)@.wf(),
            i < MAX_CELLS,
        ensures
            final(self)@.wf(),
            prior == old(self)@.attached[i as int],
            final(self)@ == spec_begin_spawn(old(self)@, i as int, now),
            final(self)@.attached[i as int] is None,
    {
        let prior = self.attached[i];
        self.attached.set(i, None);
        let c = &self.cells[i];
        let cleared = CellState {
            id: c.id.clone(),
            theme: c.theme.clone(),
            pid: None,
            last_output: c.last_output.clone(),
            status: Status::Idle,
            updated_at: now,
        };
        self.cells.set(i, cleared);
        proof {
            assert(final(self)@.cells =~= old(self)@.cells.update(
                i as int,
                spec_cleared(old(self)@.cells[i as int], now),
            ));
            assert(final(self)@.attached =~= old(self)@.attached.update(i as int, None::<u32>));
        }
        prior
    }

    /// The second step of a spawn: records the engine that the runtime has
    /// just created for slot `i`, with its process id. The slot becomes
    /// active and the registry row carries the new process id.
    pub fn commit_spawn(&mut self, i: usize, pid: u32, now: u64)
        requires
            old(self)@.wf(),
            i < MAX_CELLS,
        ensures
            final(self)@.wf(),
            final(self)@ == spec_commit_spawn(old(self)@, i as int, pid, now),
            final(self)@.attached[i as int] == Some(pid),
    {
        self.attached.set(i, Some(pid));
        let c = &self.cells[i];
        let activated = CellState {
            id: c.id.clone(),
            theme: c.theme.clone(),
            pid: Some(pid),
            last_output: c.last_output.clone(),
            status: Status::Active,
            updated_at: now,
        };
        self.cells.set(i, activated);
        proof {
            assert(final(self)@.cells =~= old(self)@.cells.update(
                i as int,
                spec_attached_cell(old(self)@.cells[i as int], pid, now),
            ));
            assert(final(self)@.attached =~= old(self)@.attached.update(i as int, Some(pid)));
        }
    }

    /// Terminates the session under `cell_id`: detaches the engine (the
    /// returned process id is what the runtime must signal) and clears the
    /// registry row. A slot with no engine, or an unknown id, is a silent
    /// no-op; only a found slot's row is touched.
    pub fn terminate(&mut self, cell_id: &str, now: u64) -> (killed: Option<u32>)
        requires
            old(self)@.wf(),
        ensures
            final(self)@.wf(),
            match old(self).spec_find(cell_id@) {
                Some(i) => killed == old(self)@.attached[i] && final(self)@ == spec_begin_spawn(
                    old(self)@,
                    i,
                    now,
                ),
                None => killed is None && final(self)@ == old(self)@,
            },
    {
        match self.find_cell(cell_id) {
            Some(i) => {
                proof {
                    old(self).lemma_find_unique(cell_id@, i as int);
                }
                self.begin_spawn(i, now)
            },
            None => {
                proof {
                    old(self).lemma_find_none(cell_id@);
                }
                None
            },
        }
    }

    /// The slot whose fixed id is `id`, as the contracts speak of it.
    pub open spec fn spec_find(&self, id: Seq<char>) -> Option<int> {
        if exists|i: int| 0 <= i < MAX_CELLS && spec_slot_id(i) == id {
            Some(choose|i: int| 0 <= i < MAX_CELLS && spec_slot_id(i) == id)
        } else {
            None
        }
    }

    /// A found index is the one `spec_find` names.
    proof fn lemma_find_unique(&self, id: Seq<char>, i: int)
        requires
            self@.wf(),
            0 <= i < MAX_CELLS,
            self@.cells[i].id == id,
        ensures
            self.spec_find(id) == Some(i),
    {
        assert(spec_slot_id(i) == id);
        let j = choose|j: int| 0 <= j < MAX_CELLS && spec_slot_id(j) == id;
        if i != j {
            lemma_slot_ids_distinct(i, j);
        }
    }

    /// When no slot's id matches, `spec_find` names none.
    proof fn lemma_find_none(&self, id: Seq<char>)
        requires
            self@.wf(),
            forall|i: int| 0 <= i < MAX_CELLS ==> #[trigger] self@.cells[i].id != id,
        ensures
            self.spec_find(id) is None,
    {
        if exists|i: int| 0 <= i < MAX_CELLS && spec_slot_id(i) == id {
            let i = choose|i: int| 0 <= i < MAX_CELLS && spec_slot_id(i) == id;
            assert(self@.cells[i].id == spec_slot_id(i));
        }
    }

    /// Decides a write or resize on the session under `cell_id`: the slot the
    /// runtime may act on, when the named session has an engine attached.
    /// A session with no attached engine, or an unknown id, yields `None`:
    /// the command is then a success with no observable effect (the state is
    /// not touched and nothing is handed to the runtime).
    pub fn attached_slot(&self, cell_id: &str) -> (r: Option<usize>)
        requires
            self@.wf(),
        ensures
            match r {
                Some(i) => 0 <= i < MAX_CELLS && self@.cells[i as int].id == cell_id@
                    && self@.attached[i as int] is Some,
                None => forall|i: int|
                    0 <= i < MAX_CELLS && #[trigger] self@.cells[i].id == cell_id@
                        ==> self@.attached[i] is None,
            },
    {
        match self.find_cell(cell_id) {
            Some(i) => {
                if self.has_engine(i) {
                    Some(i)
                } else {
                    proof {
                        self.lemma_find_unique(cell_id@, i as int);
                        assert forall|j: int|
                            0 <= j < MAX_CELLS && #[trigger] self@.cells[j].id == cell_id@
                            implies self@.attached[j] is None by {
                            self.lemma_find_unique(cell_id@, j);
                        }
                    }
                    None
                }
            },
            None => None,
        }
    }

    /// Records one decoded chunk read from slot `i`'s engine: the buffer
    /// grows (trimmed to its ceiling), the timestamp moves to `now`, and the
    /// slot is marked active while an engine is attached. Nothing else —
    /// in particular no other slot — changes.
    pub fn on_output(&mut self, i: usize, chunk: &str, now: u64)
        requires
            old(self)@.wf(),
            i < MAX_CELLS,
        ensures
            final(self)@.wf(),
            final(self)@ == spec_on_output(old(self)@, i as int, chunk@, now),
    {
        let attached = self.has_engine(i);
        let c = &self.cells[i];
        let mut buf = c.last_output.clone();
        append_chunk(&mut buf, chunk);
        let updated = CellState {
            id: c.id.clone(),
            theme: c.theme.clone(),
            pid: c.pid,
            last_output: buf,
            status: if attached {
                Status::Active
            } else {
                c.status
            },
            updated_at: now,
        };
        self.cells.set(i, updated);
        proof {
            assert(final(self)@.cells =~= spec_on_output(old(self)@, i as int, chunk@, now).cells);
            assert(final(self)@.attached =~= spec_on_output(
                old(self)@,
                i as int,
                chunk@,
                now,
            ).attached);
        }
    }

    /// The current output buffer of slot `i`, for the runtime to persist or
    /// replay.
    pub fn cell_output(&self, i: usize) -> (r: &String)
        requires
            self@.wf(),
            i < MAX_CELLS,
        ensures
            r@ == self@.cells[i as int].last_output,
    {
        &self.cells[i].last_output
    }

    /// Sets the display label of the session under `cell_id` and moves its
    /// timestamp; an unknown id is a silent no-op.
    pub fn set_theme(&mut self, cell_id: &str, theme: String, now: u64)
        requires
            old(self)@.wf(),
        ensures
            final(self)@.wf(),
            match old(self).spec_find(cell_id@) {
                Some(i) => final(self)@.attached == old(self)@.attached && final(self)@.cells
                    == old(self)@.cells.update(
                    i,
                    CellModel { theme: theme@, updated_at: now, ..old(self)@.cells[i] },
                ),
                None => final(self)@ == old(self)@,
            },
    {
        match self.find_cell(cell_id) {
            Some(i) => {
                proof {
                    old(self).lemma_find_unique(cell_id@, i as int);
                }
                let c = &self.cells[i];
                let updated = CellState {
                    id: c.id.clone(),
                    theme,
                    pid: c.pid,
                    last_output: c.last_output.clone(),
                    status: c.status,
                    updated_at: now,
                };
                self.cells.set(i, updated);
                proof {
                    assert(final(self)@.cells =~= old(self)@.cells.update(
                        i as int,
                        CellModel {
                            theme: theme@,
                            updated_at: now,
                            ..old(self)@.cells[i as int]
                        },
                    ));
                }
            },
            None => {
                proof {
                    old(self).lemma_find_none(cell_id@);
                }
            },
        }
    }

    /// Terminates every attached engine: every slot with an engine is cleared
    /// (its process id is in the returned list, in slot order, for the
    /// runtime to signal), and slots without one are untouched.
    pub fn terminate_all(&mut self, now: u64) -> (killed: Vec<u32>)
        requires
            old(self)@.wf(),
        ensures
            final(self)@.wf(),
            final(self)@ == spec_terminate_all(old(self)@, now),
            killed@ == spec_live_pids(old(self)@.attached),
    {
        let mut killed: Vec<u32> = Vec::new();
        let mut i: usize = 0;
        proof {
            assert(old(self)@.attached.take(0) =~= Seq::<Option<u32>>::empty());
        }
        while i < MAX_CELLS
            invariant
                0 <= i <= MAX_CELLS,
                old(self)@.wf(),
                self@.wf(),
                self@.attached.len() == MAX_CELLS,
                self@.cells.len() == MAX_CELLS,
                killed@ == spec_live_pids(old(self)@.attached.take(i as int)),
                forall|k: int| 0 <= k < i ==> #[trigger] self@.attached[k] is None,
                forall|k: int|
                    0 <= k < i ==> #[trigger] self@.cells[k] == (if old(
                        self,
                    )@.attached[k] is Some {
                        spec_cleared(old(self)@.cells[k], now)
                    } else {
                        old(self)@.cells[k]
                    }),
                forall|k: int|
                    i <= k < MAX_CELLS ==> #[trigger] self@.cells[k] == old(self)@.cells[k],
                forall|k: int|
                    i <= k < MAX_CELLS ==> #[trigger] self@.attached[k] == old(
                        self,
                    )@.attached[k],
            decreases MAX_CELLS - i,
        {
            proof {
                assert(old(self)@.attached.take(i + 1).drop_last() =~= old(
                    self,
                )@.attached.take(i as int));
                assert(old(self)@.attached.take(i + 1).last() == old(self)@.attached[i as int]);
            }
            if self.has_engine(i) {
                let pid = self.attached[i].unwrap();
                self.begin_spawn(i, now);
                killed.push(pid);
            }
            i = i + 1;
        }
        proof {
            assert(old(self)@.attached.take(MAX_CELLS as int) =~= old(self)@.attached);
            assert(final(self)@.cells =~= spec_terminate_all(old(self)@, now).cells);
            assert(final(self)@.attached =~= spec_terminate_all(old(self)@, now).attached);
        }
        killed
    }

    /// A snapshot of every slot, in slot order (ascending by grid index).
    pub fn get_cells(&self) -> (r: Vec<CellState>)
        requires
            self@.wf(),
        ensures
            cell_views(r@) == self@.cells,
    {
        let n = self.cells.len();
        let mut out: Vec<CellState> = Vec::new();
        let mut i: usize = 0;
        while i < n
            invariant
                0 <= i <= n,
                n == self.cells@.len(),
                out@.len() == i,
                forall|k: int| 0 <= k < i ==> #[trigger] out@[k]@ == self.cells@[k]@,
            decreases n - i,
        {
            let c = self.cells[i].clone();
            out.push(c);
            i = i + 1;
        }
        proof {
            assert(cell_views(out@) =~= cell_views(self.cells@));
        }
        out
    }
}

/// Spawning twice in a row on one slot can never leave two attached engines:
/// after the second spawn the slot carries exactly the second engine, the
/// second spawn's first step handed back the first engine's process id for
/// signaling, and no other slot was touched.
pub proof fn lemma_spawn_replaces(
    m0: MuxModel,
    i: int,
    p1: u32,
    p2: u32,
    t1: u64,
    t2: u64,
    t3: u64,
    t4: u64,
)
    requires
        m0.wf(),
        0 <= i < MAX_CELLS,
    ensures
        ({
            let m1 = spec_begin_spawn(m0, i, t1);
            let m2 = spec_commit_spawn(m1, i, p1, t2);
            let m3 = spec_begin_spawn(m2, i, t3);
            let m4 = spec_commit_spawn(m3, i, p2, t4);
            &&& m2.attached[i] == Some(p1)
            &&& m4.attached[i] == Some(p2)
            &&& m4.cells[i].pid == Some(p2)
            &&& m4.wf()
            &&& forall|j: int|
                0 <= j < MAX_CELLS && j != i ==> #[trigger] m4.cells[j] == m0.cells[j]
                    && m4.attached[j] == m0.attached[j]
        }),
{
}

/// Distinct slots have distinct ids: their decimal suffixes differ.
pub proof fn lemma_slot_ids_distinct(i: int, j: int)
    requires
        0 <= i < MAX_CELLS,
        0 <= j < MAX_CELLS,
        i != j,
    ensures
        spec_slot_id(i) != spec_slot_id(j),
{
    lemma_u64_digits_injective_small(i as u64, j as u64);
    reveal_strlit("slot-");
    if spec_slot_id(i) == spec_slot_id(j) {
        let a = spec_u64_digits(i as u64);
        let b = spec_u64_digits(j as u64);
        assert(("slot-"@ + a).skip(5) =~= a);
        assert(("slot-"@ + b).skip(5) =~= b);
        assert(a == b);
    }
}

/// Whether the slots are listed in ascending order of id.
pub open spec fn sorted_by_id(s: Seq<CellModel>) -> bool {
    forall|i: int, j: int| 0 <= i < j < s.len() ==> lex_leq(#[trigger] s[i].id, #[trigger] s[j].id)
}

/// Orders a snapshot of slots by id, lexicographically: the order in which
/// the sessions are handed to the presentation layer. The result holds
/// exactly the given slots.
pub fn sort_cells_by_id(cells: Vec<CellState>) -> (r: Vec<CellState>)
    ensures
        r@.len() == cells@.len(),
        sorted_by_id(cell_views(r@)),
        r@.to_multiset() == cells@.to_multiset(),
{
    broadcast use vstd::seq_lib::group_to_multiset_ensures;

    let mut work = cells;
    let mut out: Vec<CellState> = Vec::new();
    let ghost all = work@;
    while work.len() > 0
        invariant
            out@.to_multiset().add(work@.to_multiset()) == all.to_multiset(),
            out@.len() + work@.len() == all.len(),
            sorted_by_id(cell_views(out@)),
            forall|i: int, j: int|
                0 <= i < out@.len() && 0 <= j < work@.len() ==> lex_leq(
                    #[trigger] out@[i]@.id,
                    #[trigger] work@[j]@.id,
                ),
        decreases work@.len(),
    {
        // The position of a first remaining slot in id order.
        let n = work.len();
        let mut best: usize = 0;
        let mut k: usize = 1;
        proof {
            lemma_lex_total(work@[0]@.id, work@[0]@.id);
        }
        while k < n
            invariant
                0 <= best < k <= n,
                n == work@.len(),
                forall|j: int|
                    0 <= j < k ==> lex_leq(work@[best as int]@.id, #[trigger] work@[j]@.id),
            decreases n - k,
        {
            if !str_lex_leq(work[best].id.as_str(), work[k].id.as_str()) {
                proof {
                    lemma_lex_total(work@[best as int]@.id, work@[k as int]@.id);
                    assert forall|j: int| 0 <= j < k + 1 implies lex_leq(
                        work@[k as int]@.id,
                        #[trigger] work@[j]@.id,
                    ) by {
                        if j == k {
                            lemma_lex_total(work@[k as int]@.id, work@[k as int]@.id);
                        } else {
                            lemma_lex_trans(
                                work@[k as int]@.id,
                                work@[best as int]@.id,
                                work@[j]@.id,
                            );
                        }
                    }
                }
                best = k;
            }
            k = k + 1;
        }
        let ghost prev_work = work@;
        let ghost prev_out = out@;
        let picked = work.remove(best);
        out.push(picked);
        proof {
            broadcast use vstd::seq_lib::group_to_multiset_ensures;

            assert(prev_work.contains(picked)) by {
                assert(prev_work[best as int] == picked);
            }
            assert(prev_work.to_multiset().count(picked) > 0);
            assert(work@ == prev_work.remove(best as int));
            assert(prev_work.remove(best as int).to_multiset() =~= prev_work.to_multiset().remove(
                picked,
            ));
            assert(out@.to_multiset() =~= prev_out.to_multiset().insert(picked));
            assert(out@.to_multiset().add(work@.to_multiset()) =~= all.to_multiset());
            assert forall|i: int, j: int|
                0 <= i < j < cell_views(out@).len() implies lex_leq(
                #[trigger] cell_views(out@)[i].id,
                #[trigger] cell_views(out@)[j].id,
            ) by {
                if j < out@.len() - 1 {
                    assert(cell_views(prev_out)[i] == cell_views(out@)[i]);
                    assert(cell_views(prev_out)[j] == cell_views(out@)[j]);
                } else {
                    assert(cell_views(out@)[j] == picked@);
                    if i < prev_out.len() {
                        assert(lex_leq(prev_out[i]@.id, prev_work[best as int]@.id));
                    }
                }
            }
            assert forall|i: int, j: int|
                0 <= i < out@.len() && 0 <= j < work@.len() implies lex_leq(
                #[trigger] out@[i]@.id,
                #[trigger] work@[j]@.id,
            ) by {
                let j0 = if j < best { j } else { j + 1 };
                assert(work@[j] == prev_work[j0]);
                if i < prev_out.len() {
                    assert(lex_leq(prev_out[i]@.id, prev_work[j0]@.id));
                } else {
                    assert(out@[i] == picked);
                    assert(lex_leq(prev_work[best as int]@.id, prev_work[j0]@.id));
                }
            }
        }
    }
    proof {
        broadcast use vstd::seq_lib::group_to_multiset_ensures;

        assert(work@.to_multiset().len() == 0);
        assert(out@.to_multiset() =~= all.to_multiset());
    }
    out
}

/// Decimal writings of numbers below 100 are distinct.
proof fn lemma_u64_digits_injective_small(a: u64, b: u64)
    requires
        a < 100,
        b < 100,
        a != b,
    ensures
        spec_u64_digits(a) != spec_u64_digits(b),
{
    if spec_u64_digits(a) == spec_u64_digits(b) {
        if a < 10 && b < 10 {
            assert(spec_u64_digits(a)[0] == crate::text::digit_char(a as int));
            assert(false);
        } else if a >= 10 && b >= 10 {
            assert(spec_u64_digits(a / 10) == seq![crate::text::digit_char((a / 10) as int)]);
            assert(spec_u64_digits(b / 10) == seq![crate::text::digit_char((b / 10) as int)]);
            assert(spec_u64_digits(a).len() == 2);
            assert(spec_u64_digits(a)[0] == crate::text::digit_char((a / 10) as int));
            assert(spec_u64_digits(a)[1] == crate::text::digit_char((a % 10) as int));
            assert(false);
        } else {
            assert(spec_u64_digits(a / 10).len() >= 1 && spec_u64_digits(b / 10).len() >= 1);
            assert(spec_u64_digits(a).len() != spec_u64_digits(b).len());
        }
    }
}

} // verus!
