//! Event dispatcher: the registry of handlers, kept as an ordered list of
//! (event name, handler identity) bindings.
use vstd::prelude::*;

verus! {

/// The handlers bound to `name`, in the order in which they were bound.
pub open spec fn handlers_of(bindings: Seq<(Seq<char>, u64)>, name: Seq<char>) -> Seq<u64>
    decreases bindings.len(),
{
    if bindings.len() == 0 {
        seq![]
    } else {
        let rest = handlers_of(bindings.drop_last(), name);
        if bindings.last().0 == name {
            rest.push(bindings.last().1)
        } else {
            rest
        }
    }
}

/// Maps each event name to the ordered handlers bound to it.
pub struct Dispatcher {
    bindings: Vec<(String, u64)>,
}

impl View for Dispatcher {
    type V = Seq<(Seq<char>, u64)>;

    closed spec fn view(&self) -> Seq<(Seq<char>, u64)> {
        self.bindings@.map_values(|b: (String, u64)| (b.0@, b.1))
    }
}

impl Dispatcher {
    /// A dispatcher with no handlers.
    pub fn new() -> (r: Dispatcher)
        ensures
            r@ == Seq::<(Seq<char>, u64)>::empty(),
    {
        let d = Dispatcher { bindings: Vec::new() };
        assert(d@ =~= Seq::<(Seq<char>, u64)>::empty());
        d
    }

    /// Binds handler `handler` to events named `name`, after those already bound.
    pub fn bind(&mut self, name: &str, handler: u64)
        ensures
            final(self)@ == old(self)@.push((name@, handler)),
    {
        self.bindings.push((String::from_str(name), handler));
        assert(self@ =~= old(self)@.push((name@, handler)));
    }

    /// The handlers to invoke for an event named `name`, in binding order.
    pub fn handlers_for(&self, name: &str) -> (r: Vec<u64>)
        ensures
            r@ == handlers_of(self@, name@),
    {
        let key = String::from_str(name);
        let mut out: Vec<u64> = Vec::new();
        let mut i: usize = 0;
        while i < self.bindings.len()
            invariant
                i <= self.bindings@.len(),
                key@ == name@,
                out@ == handlers_of(self@.subrange(0, i as int), name@),
            decreases self.bindings@.len() - i,
        {
            let b = &self.bindings[i];
            if b.0 == key {
                out.push(b.1);
            }
            proof {
                assert(self@.subrange(0, i + 1).drop_last() =~= self@.subrange(0, i as int));
            }
            i = i + 1;
        }
        assert(self@.subrange(0, self@.len() as int) =~= self@);
        out
    }
}

/// Handlers bound one after the other to the same name are invoked in that
/// order, after those bound before them.
pub proof fn lemma_bind_order(bindings: Seq<(Seq<char>, u64)>, name: Seq<char>, h1: u64, h2: u64)
    ensures
        handlers_of(bindings.push((name, h1)).push((name, h2)), name) == handlers_of(
            bindings,
            name,
        ).push(h1).push(h2),
{
    assert(bindings.push((name, h1)).push((name, h2)).drop_last() =~= bindings.push((name, h1)));
    assert(bindings.push((name, h1)).drop_last() =~= bindings);
    assert(handlers_of(bindings.push((name, h1)), name) == handlers_of(bindings, name).push(h1));
}

/// Binding under one name leaves the handlers of every other name as they were.
pub proof fn lemma_bind_other(bindings: Seq<(Seq<char>, u64)>, name: Seq<char>, other: Seq<char>, h: u64)
    requires
        name != other,
    ensures
        handlers_of(bindings.push((name, h)), other) == handlers_of(bindings, other),
{
    assert(bindings.push((name, h)).drop_last() =~= bindings);
}

} // verus!
