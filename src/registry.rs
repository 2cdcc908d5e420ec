//! Registration of exported functions during load.
use vstd::prelude::*;

verus! {

/// A parameter of an exported function.
pub struct ArgumentDefinition {
    pub name: String,
    pub is_ref: bool,
}

/// An exported function: its name, the address of its entry point, and its
/// parameters, in order.
pub struct FunctionDefinition {
    pub name: String,
    pub handler: u64,
    pub args: Vec<ArgumentDefinition>,
}

impl View for ArgumentDefinition {
    type V = (Seq<char>, bool);

    open spec fn view(&self) -> (Seq<char>, bool) {
        (self.name@, self.is_ref)
    }
}

impl View for FunctionDefinition {
    type V = (Seq<char>, u64, Seq<(Seq<char>, bool)>);

    open spec fn view(&self) -> (Seq<char>, u64, Seq<(Seq<char>, bool)>) {
        (self.name@, self.handler, Seq::new(self.args@.len(), |i: int| self.args@[i]@))
    }
}

impl ArgumentDefinition {
    pub fn duplicate(&self) -> (r: ArgumentDefinition)
        ensures
            r@ == self@,
    {
        ArgumentDefinition { name: self.name.clone(), is_ref: self.is_ref }
    }
}

impl FunctionDefinition {
    pub fn duplicate(&self) -> (r: FunctionDefinition)
        ensures
            r@ == self@,
    {
        let mut args: Vec<ArgumentDefinition> = Vec::new();
        let mut i: usize = 0;
        while i < self.args.len()
            invariant
                i <= self.args@.len(),
                args@.len() == i,
                forall|j: int| 0 <= j < i ==> #[trigger] args@[j]@ == self.args@[j]@,
            decreases self.args@.len() - i,
        {
            args.push(self.args[i].duplicate());
            i = i + 1;
        }
        let r = FunctionDefinition { name: self.name.clone(), handler: self.handler, args };
        assert(r@.2 =~= self@.2);
        r
    }
}

/// The functions registered so far, in the order of registration. Nothing is
/// ever removed.
pub struct FunctionCache {
    functions: Vec<FunctionDefinition>,
}

impl View for FunctionCache {
    type V = Seq<(Seq<char>, u64, Seq<(Seq<char>, bool)>)>;

    closed spec fn view(&self) -> Seq<(Seq<char>, u64, Seq<(Seq<char>, bool)>)> {
        Seq::new(self.functions@.len(), |i: int| self.functions@[i]@)
    }
}

impl FunctionCache {
    pub fn new() -> (r: FunctionCache)
        ensures
            r@ == Seq::<(Seq<char>, u64, Seq<(Seq<char>, bool)>)>::empty(),
    {
        let r = FunctionCache { functions: Vec::new() };
        assert(r@ =~= Seq::<(Seq<char>, u64, Seq<(Seq<char>, bool)>)>::empty());
        r
    }

}

/// Registers `func` after those registered before it.
pub fn cache_function(cache: &mut FunctionCache, func: FunctionDefinition)
    ensures
        final(cache)@ == old(cache)@.push(func@),
{
    cache.functions.push(func);
    assert(cache@ =~= old(cache)@.push(func@));
}

/// A copy of the registered functions, in the order of registration.
pub fn get_functions(cache: &FunctionCache) -> (r: Vec<FunctionDefinition>)
    ensures
        r@.len() == cache@.len(),
        forall|i: int| 0 <= i < r@.len() ==> #[trigger] r@[i]@ == cache@[i],
{
    let mut r: Vec<FunctionDefinition> = Vec::new();
    let mut i: usize = 0;
    while i < cache.functions.len()
        invariant
            i <= cache.functions@.len(),
            r@.len() == i,
            forall|j: int| 0 <= j < i ==> #[trigger] r@[j]@ == cache.functions@[j]@,
        decreases cache.functions@.len() - i,
    {
        r.push(cache.functions[i].duplicate());
        i = i + 1;
    }
    proof {
        assert forall|j: int| 0 <= j < r@.len() implies #[trigger] r@[j]@ == cache@[j] by {
        }
    }
    r
}

} // verus!
