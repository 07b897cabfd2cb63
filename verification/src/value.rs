//! Runtime values, environments, and the heap.
//!
//! A value is an integer, a float (carried as bits), a boolean, a closure,
//! a box handle, an immutable or mutable reference into the heap, or the
//! `Moved` sentinel that marks a binding whose box handle has been handed
//! to a new name.
//!
//! The environment maps identifiers to values; lookups find the innermost
//! binding, and a closure captures a snapshot of the environment alive at
//! its creation. The heap is a growable arena of cells addressed by index;
//! each cell pairs a value with its borrow state (see
//! [`crate::interp`] for the borrow discipline).

use vstd::prelude::*;

use crate::ast::{Exp, ExpView};

verus! {

/// A heap address: an index into the arena of cells.
pub type Location = usize;

/// One runtime value.
pub enum Value {
    /// Integer.
    Int(i64),
    /// Float, as the bit pattern of the 64-bit float.
    Float(u64),
    /// Boolean.
    Bool(bool),
    /// A function value: parameter name, body, and the captured environment.
    Closure { symbol: String, body: Box<Exp>, env: Env },
    /// A first-class handle to a heap cell, made by evaluating a `box` form.
    BoxRef(Location),
    /// An immutable borrow of a heap cell.
    ImmRef(Location),
    /// An exclusive mutable borrow of a heap cell.
    MutRefVal(Location),
    /// The sentinel left at a binding whose box handle was moved away.
    Moved,
}

/// One environment entry.
pub struct Binding {
    pub name: String,
    pub value: Value,
}

/// The environment: entries from outermost to innermost; lookups search
/// from the innermost end.
pub struct Env {
    pub bindings: Vec<Binding>,
}

/// The mathematical shape of a [`Value`].
#[verifier::ext_equal]
pub enum ValueView {
    Int(i64),
    Float(u64),
    Bool(bool),
    Closure { symbol: Seq<char>, body: ExpView, env: Seq<BindingView> },
    BoxRef(Location),
    ImmRef(Location),
    MutRefVal(Location),
    Moved,
}

/// The mathematical shape of a [`Binding`].
#[verifier::ext_equal]
pub struct BindingView {
    pub name: Seq<char>,
    pub value: ValueView,
}

impl View for Value {
    type V = ValueView;

    open spec fn view(&self) -> ValueView
        decreases self, 1int,
    {
        match self {
            Value::Int(i) => ValueView::Int(*i),
            Value::Float(bits) => ValueView::Float(*bits),
            Value::Bool(b) => ValueView::Bool(*b),
            Value::Closure { symbol, body, env } => ValueView::Closure {
                symbol: symbol@,
                body: (**body)@,
                env: view_bindings(env.bindings@),
            },
            Value::BoxRef(loc) => ValueView::BoxRef(*loc),
            Value::ImmRef(loc) => ValueView::ImmRef(*loc),
            Value::MutRefVal(loc) => ValueView::MutRefVal(*loc),
            Value::Moved => ValueView::Moved,
        }
    }
}

impl View for Binding {
    type V = BindingView;

    open spec fn view(&self) -> BindingView
        decreases self, 1int,
    {
        BindingView { name: self.name@, value: self.value@ }
    }
}

impl View for Env {
    type V = Seq<BindingView>;

    open spec fn view(&self) -> Seq<BindingView>
        decreases self, 1int,
    {
        view_bindings(self.bindings@)
    }
}

/// The views of a sequence of bindings, element by element.
pub open spec fn view_bindings(bs: Seq<Binding>) -> Seq<BindingView>
    decreases bs, 0int,
{
    if bs.len() == 0 {
        Seq::empty()
    } else {
        view_bindings(bs.drop_last()).push(bs.last()@)
    }
}

/// `view_bindings` is the element-wise view of its argument.
pub proof fn lemma_view_bindings(bs: Seq<Binding>)
    ensures
        view_bindings(bs).len() == bs.len(),
        forall|i: int| 0 <= i < bs.len() ==> view_bindings(bs)[i] == #[trigger] bs[i]@,
    decreases bs,
{
    assert(bs.len() == 0 ==> view_bindings(bs).len() == 0);
    if bs.len() > 0 {
        assert(view_bindings(bs) == view_bindings(bs.drop_last()).push(bs.last()@));
        lemma_view_bindings(bs.drop_last());
        assert forall|i: int| 0 <= i < bs.len() implies view_bindings(bs)[i] == #[trigger] bs[i]@ by {
            if i < bs.len() - 1 {
                assert(bs.drop_last()[i] == bs[i]);
            } else {
                assert(bs.last() == bs[i]);
            }
        }
    }
}

impl Clone for Value {
    /// A deep copy with the same view.
    fn clone(&self) -> (r: Value)
        ensures
            r@ == self@,
        decreases self, 2int,
    {
        match self {
            Value::Int(i) => Value::Int(*i),
            Value::Float(bits) => Value::Float(*bits),
            Value::Bool(b) => Value::Bool(*b),
            Value::Closure { symbol, body, env } => Value::Closure {
                symbol: symbol.clone(),
                body: Box::new((**body).clone()),
                env: env.clone(),
            },
            Value::BoxRef(loc) => Value::BoxRef(*loc),
            Value::ImmRef(loc) => Value::ImmRef(*loc),
            Value::MutRefVal(loc) => Value::MutRefVal(*loc),
            Value::Moved => Value::Moved,
        }
    }
}

impl Clone for Binding {
    /// A deep copy with the same view.
    fn clone(&self) -> (r: Binding)
        ensures
            r@ == self@,
        decreases self, 2int,
    {
        Binding { name: self.name.clone(), value: self.value.clone() }
    }
}

impl Clone for Env {
    /// A deep copy with the same view: the snapshot a closure captures.
    fn clone(&self) -> (r: Env)
        ensures
            r@ == self@,
        decreases self, 2int,
    {
        let mut out: Vec<Binding> = Vec::new();
        let mut i: usize = 0;
        while i < self.bindings.len()
            invariant
                i <= self.bindings@.len(),
                out@.len() == i,
                forall|j: int| 0 <= j < i ==> out@[j]@ == #[trigger] self.bindings@[j]@,
            decreases self.bindings@.len() - i,
        {
            out.push(self.bindings[i].clone());
            i = i + 1;
        }
        proof {
            lemma_view_bindings(self.bindings@);
            lemma_view_bindings(out@);
            assert forall|j: int| 0 <= j < out@.len() implies view_bindings(out@)[j]
                == view_bindings(self.bindings@)[j] by {
                assert(out@[j]@ == self.bindings@[j]@);
            }
            assert(view_bindings(out@) =~= view_bindings(self.bindings@));
        }
        Env { bindings: out }
    }
}

/// The innermost value bound to `name`, if any.
pub open spec fn lookup_spec(env: Seq<BindingView>, name: Seq<char>) -> Option<ValueView>
    decreases env,
{
    if env.len() == 0 {
        None
    } else if env.last().name == name {
        Some(env.last().value)
    } else {
        lookup_spec(env.drop_last(), name)
    }
}

/// The environment with the innermost binding of `name`, if any, replaced
/// by the `Moved` sentinel.
pub open spec fn mark_moved_spec(env: Seq<BindingView>, name: Seq<char>) -> Seq<BindingView>
    decreases env,
{
    if env.len() == 0 {
        env
    } else if env.last().name == name {
        env.update(env.len() - 1, BindingView { name: env.last().name, value: ValueView::Moved })
    } else {
        mark_moved_spec(env.drop_last(), name).push(env.last())
    }
}

impl Env {
    /// The empty environment.
    pub fn new() -> (r: Env)
        ensures
            r@ == Seq::<BindingView>::empty(),
    {
        let bindings: Vec<Binding> = Vec::new();
        proof {
            lemma_view_bindings(bindings@);
            assert(view_bindings(bindings@) =~= Seq::<BindingView>::empty());
        }
        Env { bindings }
    }

    /// Adds an innermost binding, shadowing any earlier one of the same name.
    pub fn push(&mut self, name: String, value: Value)
        ensures
            final(self)@ == old(self)@.push(BindingView { name: name@, value: value@ }),
    {
        let ghost before = self.bindings@;
        let ghost bv = BindingView { name: name@, value: value@ };
        let b = Binding { name, value };
        proof {
            assert(b@ == bv);
        }
        self.bindings.push(b);
        proof {
            assert(self.bindings@.drop_last() =~= before);
            assert(self.bindings@.last() == b);
            assert(view_bindings(self.bindings@) == view_bindings(before).push(b@));
        }
    }

    /// The innermost value bound to `name`, copied out, or `None`.
    pub fn lookup(&self, name: &String) -> (r: Option<Value>)
        ensures
            match r {
                Some(v) => lookup_spec(self@, name@) == Some(v@),
                None => lookup_spec(self@, name@) is None,
            },
    {
        proof {
            lemma_view_bindings(self.bindings@);
            assert(view_bindings(self.bindings@).take(self.bindings@.len() as int)
                =~= view_bindings(self.bindings@));
        }
        let mut i: usize = self.bindings.len();
        while i > 0
            invariant
                i <= self.bindings@.len(),
                view_bindings(self.bindings@).len() == self.bindings@.len(),
                forall|j: int| 0 <= j < self.bindings@.len() ==> view_bindings(self.bindings@)[j]
                    == #[trigger] self.bindings@[j]@,
                lookup_spec(self@, name@) == lookup_spec(
                    view_bindings(self.bindings@).take(i as int),
                    name@,
                ),
            decreases i,
        {
            i = i - 1;
            if self.bindings[i].name == *name {
                proof {
                    let pre = view_bindings(self.bindings@).take(i + 1);
                    assert(pre.last() == self.bindings@[i as int]@);
                    assert(pre.last().name == name@);
                }
                return Some(self.bindings[i].value.clone());
            }
            proof {
                let pre = view_bindings(self.bindings@).take(i + 1);
                assert(pre.last() == self.bindings@[i as int]@);
                assert(pre.last().name != name@);
                assert(pre.drop_last() =~= view_bindings(self.bindings@).take(i as int));
            }
        }
        proof {
            assert(view_bindings(self.bindings@).take(0) =~= Seq::<BindingView>::empty());
        }
        None
    }

    /// Replaces the innermost binding of `name`, if any, by the `Moved`
    /// sentinel: the source binding of a moved box handle.
    pub fn mark_moved(&mut self, name: &String)
        ensures
            final(self)@ == mark_moved_spec(old(self)@, name@),
    {
        proof {
            lemma_view_bindings(self.bindings@);
        }
        let ghost orig = self.bindings@;
        match find_innermost(&self.bindings, name) {
            None => {
                proof {
                    assert forall|j: int| 0 <= j < view_bindings(orig).len() implies #[trigger] view_bindings(
                        orig,
                    )[j].name != name@ by {
                        assert(view_bindings(orig)[j] == orig[j]@);
                    }
                    lemma_mark_moved_absent(view_bindings(orig), name@);
                }
            },
            Some(k) => {
                let nm = self.bindings[k].name.clone();
                self.bindings.set(k, Binding { name: nm, value: Value::Moved });
                proof {
                    lemma_view_bindings(self.bindings@);
                    assert(view_bindings(orig)[k as int] == orig[k as int]@);
                    assert forall|j: int| k < j < view_bindings(orig).len() implies #[trigger] view_bindings(
                        orig,
                    )[j].name != name@ by {
                        assert(view_bindings(orig)[j] == orig[j]@);
                    }
                    lemma_mark_moved_found(view_bindings(orig), name@, k as int);
                    let target = view_bindings(orig).update(
                        k as int,
                        BindingView {
                            name: view_bindings(orig)[k as int].name,
                            value: ValueView::Moved,
                        },
                    );
                    assert forall|j: int| 0 <= j < orig.len() implies view_bindings(
                        self.bindings@,
                    )[j] == target[j] by {
                        assert(view_bindings(self.bindings@)[j] == self.bindings@[j]@);
                        if j != k {
                            assert(self.bindings@[j] == orig[j]);
                        }
                    }
                    assert(view_bindings(self.bindings@) =~= target);
                }
            },
        }
    }
}

/// The position of the innermost binding of `name`, if any.
fn find_innermost(bs: &Vec<Binding>, name: &String) -> (r: Option<usize>)
    ensures
        match r {
            Some(k) => k < bs@.len() && bs@[k as int]@.name == name@ && (forall|j: int|
                k < j < bs@.len() ==> #[trigger] bs@[j]@.name != name@),
            None => forall|j: int| 0 <= j < bs@.len() ==> #[trigger] bs@[j]@.name != name@,
        },
{
    let mut i: usize = bs.len();
    while i > 0
        invariant
            i <= bs@.len(),
            forall|j: int| i <= j < bs@.len() ==> #[trigger] bs@[j]@.name != name@,
        decreases i,
    {
        i = i - 1;
        if bs[i].name == *name {
            return Some(i);
        }
    }
    None
}

/// Marking a name that is bound nowhere leaves the environment unchanged.
proof fn lemma_mark_moved_absent(env: Seq<BindingView>, name: Seq<char>)
    requires
        forall|j: int| 0 <= j < env.len() ==> #[trigger] env[j].name != name,
    ensures
        mark_moved_spec(env, name) == env,
    decreases env,
{
    if env.len() > 0 {
        assert(env.last() == env[env.len() - 1]);
        lemma_mark_moved_absent(env.drop_last(), name);
        assert(env.drop_last().push(env.last()) =~= env);
    }
}

/// Marking a name bound innermost at position `k` rewrites exactly that
/// entry to the `Moved` sentinel.
proof fn lemma_mark_moved_found(env: Seq<BindingView>, name: Seq<char>, k: int)
    requires
        0 <= k < env.len(),
        env[k].name == name,
        forall|j: int| k < j < env.len() ==> #[trigger] env[j].name != name,
    ensures
        mark_moved_spec(env, name) == env.update(
            k,
            BindingView { name: env[k].name, value: ValueView::Moved },
        ),
    decreases env,
{
    if k == env.len() - 1 {
        assert(env.last() == env[k]);
    } else {
        assert(env.last() == env[env.len() - 1]);
        assert(env.last().name != name);
        lemma_mark_moved_found(env.drop_last(), name, k);
        assert(env.drop_last()[k] == env[k]);
        assert(env.drop_last().update(
            k,
            BindingView { name: env[k].name, value: ValueView::Moved },
        ).push(env.last()) =~= env.update(
            k,
            BindingView { name: env[k].name, value: ValueView::Moved },
        ));
    }
}

/// The borrow state of one heap cell: free, shared by `n >= 1` immutable
/// borrows, or exclusively borrowed by one mutable reference.
#[derive(Clone, Copy, PartialEq, Eq, Structural, Debug)]
pub enum BorrowState {
    Free,
    SharedBy(u64),
    Exclusive,
}

/// One heap cell: a value and its borrow state.
pub struct Cell {
    pub value: Value,
    pub borrow: BorrowState,
}

/// The mathematical shape of a [`Cell`].
#[verifier::ext_equal]
pub struct CellView {
    pub value: ValueView,
    pub borrow: BorrowState,
}

impl View for Cell {
    type V = CellView;

    open spec fn view(&self) -> CellView {
        CellView { value: self.value@, borrow: self.borrow }
    }
}

/// The heap: a growable arena of cells, created empty for one top-level
/// evaluation and discarded afterwards. Cells are only ever added, never
/// freed.
pub struct Heap {
    pub cells: Vec<Cell>,
}

impl View for Heap {
    type V = Seq<CellView>;

    open spec fn view(&self) -> Seq<CellView> {
        view_cells(self.cells@)
    }
}

/// The views of a sequence of cells, element by element.
pub open spec fn view_cells(cs: Seq<Cell>) -> Seq<CellView>
    decreases cs,
{
    if cs.len() == 0 {
        Seq::empty()
    } else {
        view_cells(cs.drop_last()).push(cs.last()@)
    }
}

/// `view_cells` is the element-wise view of its argument.
pub proof fn lemma_view_cells(cs: Seq<Cell>)
    ensures
        view_cells(cs).len() == cs.len(),
        forall|i: int| 0 <= i < cs.len() ==> view_cells(cs)[i] == #[trigger] cs[i]@,
    decreases cs,
{
    assert(cs.len() == 0 ==> view_cells(cs).len() == 0);
    if cs.len() > 0 {
        assert(view_cells(cs) == view_cells(cs.drop_last()).push(cs.last()@));
        lemma_view_cells(cs.drop_last());
        assert forall|i: int| 0 <= i < cs.len() implies view_cells(cs)[i] == #[trigger] cs[i]@ by {
            if i < cs.len() - 1 {
                assert(cs.drop_last()[i] == cs[i]);
            } else {
                assert(cs.last() == cs[i]);
            }
        }
    }
}

impl Heap {
    /// The empty heap that a top-level evaluation starts from.
    pub fn new() -> (r: Heap)
        ensures
            r@ == Seq::<CellView>::empty(),
    {
        let cells: Vec<Cell> = Vec::new();
        proof {
            lemma_view_cells(cells@);
            assert(view_cells(cells@) =~= Seq::<CellView>::empty());
        }
        Heap { cells }
    }

    /// The number of cells allocated so far.
    pub fn len(&self) -> (r: usize)
        ensures
            r == self@.len(),
    {
        proof {
            lemma_view_cells(self.cells@);
        }
        self.cells.len()
    }

    /// Allocates a fresh, unborrowed cell holding `value` at the end of the
    /// arena and returns its location.
    pub fn allocate(&mut self, value: Value) -> (r: Location)
        ensures
            r == old(self)@.len(),
            final(self)@ == old(self)@.push(
                CellView { value: value@, borrow: BorrowState::Free },
            ),
    {
        proof {
            lemma_view_cells(self.cells@);
        }
        let ghost before = self.cells@;
        let loc = self.cells.len();
        let c = Cell { value, borrow: BorrowState::Free };
        self.cells.push(c);
        proof {
            assert(self.cells@.drop_last() =~= before);
            assert(self.cells@.last() == c);
            assert(view_cells(self.cells@) == view_cells(before).push(c@));
        }
        loc
    }

    /// A copy of the value held at `loc`.
    pub fn value_at(&self, loc: Location) -> (r: Value)
        requires
            loc < self@.len(),
        ensures
            r@ == self@[loc as int].value,
    {
        proof {
            lemma_view_cells(self.cells@);
            assert(view_cells(self.cells@)[loc as int] == self.cells@[loc as int]@);
        }
        self.cells[loc].value.clone()
    }

    /// The borrow state of the cell at `loc`.
    pub fn state_at(&self, loc: Location) -> (r: BorrowState)
        requires
            loc < self@.len(),
        ensures
            r == self@[loc as int].borrow,
    {
        proof {
            lemma_view_cells(self.cells@);
            assert(view_cells(self.cells@)[loc as int] == self.cells@[loc as int]@);
        }
        self.cells[loc].borrow
    }

    /// Overwrites the value held at `loc`; the borrow state is untouched.
    pub fn set_value(&mut self, loc: Location, value: Value)
        requires
            loc < old(self)@.len(),
        ensures
            final(self)@ == old(self)@.update(
                loc as int,
                CellView { value: value@, borrow: old(self)@[loc as int].borrow },
            ),
    {
        proof {
            lemma_view_cells(self.cells@);
            assert(view_cells(self.cells@)[loc as int] == self.cells@[loc as int]@);
        }
        let ghost before = self.cells@;
        let b = self.cells[loc].borrow;
        self.cells.set(loc, Cell { value, borrow: b });
        proof {
            lemma_view_cells(self.cells@);
            let target = view_cells(before).update(
                loc as int,
                CellView { value: self.cells@[loc as int].value@, borrow: b },
            );
            assert forall|j: int| 0 <= j < before.len() implies view_cells(self.cells@)[j]
                == target[j] by {
                assert(view_cells(self.cells@)[j] == self.cells@[j]@);
                if j != loc {
                    assert(self.cells@[j] == before[j]);
                }
            }
            assert(view_cells(self.cells@) =~= target);
        }
    }

    /// Moves the cell at `loc` to a new borrow state; the value is untouched.
    pub fn set_state(&mut self, loc: Location, borrow: BorrowState)
        requires
            loc < old(self)@.len(),
        ensures
            final(self)@ == old(self)@.update(
                loc as int,
                CellView { value: old(self)@[loc as int].value, borrow },
            ),
    {
        proof {
            lemma_view_cells(self.cells@);
            assert(view_cells(self.cells@)[loc as int] == self.cells@[loc as int]@);
        }
        let ghost before = self.cells@;
        let v = self.cells[loc].value.clone();
        self.cells.set(loc, Cell { value: v, borrow });
        proof {
            lemma_view_cells(self.cells@);
            let target = view_cells(before).update(
                loc as int,
                CellView { value: before[loc as int]@.value, borrow },
            );
            assert forall|j: int| 0 <= j < before.len() implies view_cells(self.cells@)[j]
                == target[j] by {
                assert(view_cells(self.cells@)[j] == self.cells@[j]@);
                if j != loc {
                    assert(self.cells@[j] == before[j]);
                }
            }
            assert(view_cells(self.cells@) =~= target);
        }
    }
}

/// One chunk written to the output collaborator: the value of a `display`
/// form in its human-readable role, or of a `debug` form in its structural
/// role. The caller renders and prints the chunks; the evaluator only
/// records them, in order.
pub enum OutEvent {
    /// Written by a `display` form; always an `Int`, `Float`, or `Bool`.
    Display(Value),
    /// Written by a `debug` form; any value.
    Debug(Value),
}

/// The mathematical shape of an [`OutEvent`].
#[verifier::ext_equal]
pub enum OutEventView {
    Display(ValueView),
    Debug(ValueView),
}

impl View for OutEvent {
    type V = OutEventView;

    open spec fn view(&self) -> OutEventView {
        match self {
            OutEvent::Display(v) => OutEventView::Display(v@),
            OutEvent::Debug(v) => OutEventView::Debug(v@),
        }
    }
}

/// The mutable state threaded through one top-level evaluation: the heap
/// and the ordered log of output events.
pub struct EvalState {
    pub heap: Heap,
    pub out: Vec<OutEvent>,
}

/// The mathematical shape of an [`EvalState`].
#[verifier::ext_equal]
pub struct StateView {
    pub heap: Seq<CellView>,
    pub out: Seq<OutEventView>,
}

impl View for EvalState {
    type V = StateView;

    open spec fn view(&self) -> StateView {
        StateView { heap: self.heap@, out: view_events(self.out@) }
    }
}

/// The views of a sequence of output events, element by element.
pub open spec fn view_events(es: Seq<OutEvent>) -> Seq<OutEventView>
    decreases es,
{
    if es.len() == 0 {
        Seq::empty()
    } else {
        view_events(es.drop_last()).push(es.last()@)
    }
}

/// `view_events` is the element-wise view of its argument.
pub proof fn lemma_view_events(es: Seq<OutEvent>)
    ensures
        view_events(es).len() == es.len(),
        forall|i: int| 0 <= i < es.len() ==> view_events(es)[i] == #[trigger] es[i]@,
    decreases es,
{
    assert(es.len() == 0 ==> view_events(es).len() == 0);
    if es.len() > 0 {
        assert(view_events(es) == view_events(es.drop_last()).push(es.last()@));
        lemma_view_events(es.drop_last());
        assert forall|i: int| 0 <= i < es.len() implies view_events(es)[i] == #[trigger] es[i]@ by {
            if i < es.len() - 1 {
                assert(es.drop_last()[i] == es[i]);
            } else {
                assert(es.last() == es[i]);
            }
        }
    }
}

impl EvalState {
    /// The state a top-level evaluation starts from: an empty heap and no
    /// output.
    pub fn new() -> (r: EvalState)
        ensures
            r@.heap == Seq::<CellView>::empty(),
            r@.out == Seq::<OutEventView>::empty(),
    {
        let out: Vec<OutEvent> = Vec::new();
        proof {
            lemma_view_events(out@);
            assert(view_events(out@) =~= Seq::<OutEventView>::empty());
        }
        EvalState { heap: Heap::new(), out }
    }

    /// Appends one event to the output log.
    pub fn emit(&mut self, ev: OutEvent)
        ensures
            final(self)@.heap == old(self)@.heap,
            final(self)@.out == old(self)@.out.push(ev@),
    {
        let ghost before = self.out@;
        let ghost evv = ev@;
        self.out.push(ev);
        proof {
            assert(self.out@.drop_last() =~= before);
            assert(self.out@.last() == self.out@[self.out@.len() - 1]);
            assert(view_events(self.out@) == view_events(before).push(self.out@.last()@));
            assert(self.out@.last()@ == evv);
        }
    }
}

} // verus!
