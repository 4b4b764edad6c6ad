//! Which entry points of an actor may be called directly, and how the result
//! of a continuation reaches the others.
use vstd::prelude::*;
use crate::budget::ExecutionBudget;
use crate::continuation::{ContinuationLink, InjectedResult, InjectedView, LinkState, LinkView};
use crate::error::EngineError;

verus! {

/// One invocation of an entry point, ready to run. The injected result, when
/// there is one, comes before the parameters that the caller supplied.
///
/// Only a [`CallbackInjector`] makes invocations, so one that carries an
/// injected result has come through a fired link.
#[derive(Debug)]
pub struct Invocation {
    entry_point: String,
    injected: Option<InjectedResult>,
    params: Vec<u8>,
    budget: ExecutionBudget,
}

/// The mathematical value of an [`Invocation`].
pub struct InvocationView {
    pub entry_point: Seq<char>,
    pub injected: Option<InjectedView>,
    pub params: Seq<u8>,
    pub budget: nat,
}

impl View for Invocation {
    type V = InvocationView;

    closed spec fn view(&self) -> InvocationView {
        InvocationView {
            entry_point: self.entry_point@,
            injected: match self.injected {
                Some(result) => Some(result@),
                None => None,
            },
            params: self.params@,
            budget: self.budget@,
        }
    }
}

impl Invocation {
    /// The entry point that is invoked.
    pub fn entry_point(&self) -> (name: &String)
        ensures
            name@ == self@.entry_point,
    {
        &self.entry_point
    }

    /// The result that a continuation injected, if the invocation is the
    /// resolution of one.
    pub fn injected(&self) -> (injected: Option<&InjectedResult>)
        ensures
            injected is Some <==> self@.injected is Some,
            injected matches Some(result) ==> result@ == self@.injected->0,
    {
        self.injected.as_ref()
    }

    /// The parameters that the caller supplied.
    pub fn params(&self) -> (params: &Vec<u8>)
        ensures
            params@ == self@.params,
    {
        &self.params
    }

    /// The budget the invocation runs on.
    pub fn budget(&self) -> (budget: ExecutionBudget)
        ensures
            budget@ == self@.budget,
    {
        self.budget
    }
}

/// What a direct call of `entry_point` comes to, in an actor whose entry
/// points are `table` (each name with whether it is continuation-only).
pub open spec fn direct_call(
    table: Map<Seq<char>, bool>,
    entry_point: Seq<char>,
    params: Seq<u8>,
    budget: nat,
) -> Result<InvocationView, EngineError> {
    if !table.contains_key(entry_point) {
        Err(EngineError::DeliveryFailed)
    } else if table[entry_point] {
        Err(EngineError::UnauthorizedCallback)
    } else {
        Ok(InvocationView { entry_point, injected: None, params, budget })
    }
}

/// Whether `link` can hand its result to its target entry point in an actor
/// whose entry points are `table`: the link is firing and the target is a
/// continuation-only entry point.
pub open spec fn can_inject(table: Map<Seq<char>, bool>, link: LinkView) -> bool {
    &&& link.state == LinkState::Firing
    &&& table.contains_key(link.target_entry_point)
    &&& table[link.target_entry_point]
}

/// What the resolution of `link` comes to, in an actor whose entry points
/// are `table`.
pub open spec fn continuation_call(
    table: Map<Seq<char>, bool>,
    link: LinkView,
    params: Seq<u8>,
) -> Result<InvocationView, EngineError> {
    if link.state != LinkState::Firing {
        Err(EngineError::UnauthorizedCallback)
    } else if !table.contains_key(link.target_entry_point) {
        Err(EngineError::DeliveryFailed)
    } else if !table[link.target_entry_point] {
        Err(EngineError::UnauthorizedCallback)
    } else {
        Ok(
            InvocationView {
                entry_point: link.target_entry_point,
                injected: Some(link.pending->0),
                params,
                budget: link.budget,
            },
        )
    }
}

/// What an incoming invocation of `entry_point` comes to, in an actor whose
/// entry points are `table`. The host says whether the invocation is the
/// resolution of a chain that the actor scheduled itself, and if so what the
/// chain resolved to; otherwise it is a direct call.
pub open spec fn incoming_call(
    table: Map<Seq<char>, bool>,
    entry_point: Seq<char>,
    params: Seq<u8>,
    budget: nat,
    resolution: Option<InjectedView>,
) -> Result<InvocationView, EngineError> {
    match resolution {
        None => direct_call(table, entry_point, params, budget),
        Some(result) => if budget == 0 {
            Err(EngineError::InsufficientBudget)
        } else {
            continuation_call(
                table,
                LinkView::registered(entry_point, budget).fire(result)->Ok_0,
                params,
            )
        },
    }
}

/// The link after its resolution has been attempted in an actor whose entry
/// points are `table`.
pub open spec fn link_after_continuation_call(table: Map<Seq<char>, bool>, link: LinkView) -> LinkView {
    if link.state != LinkState::Firing {
        link
    } else if !table.contains_key(link.target_entry_point) {
        link.after_deliver(false)
    } else if !table[link.target_entry_point] {
        link
    } else {
        link.after_deliver(true)
    }
}

#[derive(Debug)]
struct EntryPoint {
    name: String,
    callback_only: bool,
}

spec fn lookup(entries: Seq<EntryPoint>, name: Seq<char>) -> Option<bool>
    decreases entries.len(),
{
    if entries.len() == 0 {
        None
    } else if entries.last().name@ == name {
        Some(entries.last().callback_only)
    } else {
        lookup(entries.drop_last(), name)
    }
}

/// The entry points of one actor, each declared either public or
/// continuation-only, and the one place through which every invocation
/// passes.
#[derive(Debug)]
pub struct CallbackInjector {
    entries: Vec<EntryPoint>,
}

impl View for CallbackInjector {
    type V = Map<Seq<char>, bool>;

    closed spec fn view(&self) -> Map<Seq<char>, bool> {
        Map::new(
            |name: Seq<char>| lookup(self.entries@, name) is Some,
            |name: Seq<char>| lookup(self.entries@, name)->0,
        )
    }
}

impl CallbackInjector {
    /// An actor with no entry points declared.
    pub fn new() -> (injector: CallbackInjector)
        ensures
            injector@ == Map::<Seq<char>, bool>::empty(),
    {
        CallbackInjector { entries: Vec::new() }
    }

    fn find(&self, name: &String) -> (found: Option<bool>)
        ensures
            found == lookup(self.entries@, name@),
    {
        let mut i: usize = self.entries.len();
        assert(self.entries@.take(i as int) =~= self.entries@);
        while i > 0
            invariant
                i <= self.entries@.len(),
                lookup(self.entries@, name@) == lookup(self.entries@.take(i as int), name@),
            decreases i,
        {
            i = i - 1;
            assert(self.entries@.take(i + 1).drop_last() =~= self.entries@.take(i as int));
            if self.entries[i].name == *name {
                return Some(self.entries[i].callback_only);
            }
        }
        None
    }

    /// Declares the entry point `name`, as continuation-only or as public.
    /// A name can be declared once: declaring it again changes nothing and
    /// returns `false`.
    pub fn declare(&mut self, name: String, callback_only: bool) -> (added: bool)
        ensures
            added == !old(self)@.contains_key(name@),
            final(self)@ == if added {
                old(self)@.insert(name@, callback_only)
            } else {
                old(self)@
            },
    {
        if self.find(&name).is_some() {
            return false;
        }
        let ghost before = self.entries@;
        let ghost key = name@;
        self.entries.push(EntryPoint { name, callback_only });
        proof {
            assert(self.entries@.drop_last() =~= before);
            assert(final(self)@ =~= old(self)@.insert(key, callback_only));
        }
        true
    }

    /// Whether `name` is declared, and if so whether it is continuation-only.
    pub fn is_callback_only(&self, name: &String) -> (kind: Option<bool>)
        ensures
            kind is Some <==> self@.contains_key(name@),
            kind matches Some(callback_only) ==> callback_only == self@[name@],
    {
        self.find(name)
    }

    /// A caller invokes `entry_point` directly.
    ///
    /// This is refused with `UnauthorizedCallback` when the entry point is
    /// continuation-only, and with `DeliveryFailed` when the actor has no
    /// such entry point. A public entry point is invoked with the caller's
    /// parameters and budget, and with no injected result.
    pub fn invoke_direct(&self, entry_point: String, params: Vec<u8>, budget: ExecutionBudget) -> (r:
        Result<Invocation, EngineError>)
        ensures
            match direct_call(self@, entry_point@, params@, budget@) {
                Ok(invocation) => r is Ok && r->Ok_0@ == invocation,
                Err(e) => r is Err && r->Err_0 == e,
            },
    {
        match self.find(&entry_point) {
            None => Err(EngineError::DeliveryFailed),
            Some(true) => Err(EngineError::UnauthorizedCallback),
            Some(false) => Ok(Invocation { entry_point, injected: None, params, budget }),
        }
    }

    /// Lets an invocation that the host brings in through, or refuses it.
    ///
    /// Without a `resolution` the invocation is a direct call, and passes
    /// only to a public entry point. With one it is the resolution of a
    /// chain that this actor scheduled, and passes only to a
    /// continuation-only entry point, carrying the result; `budget` is then
    /// what the continuation was given, and must not be empty.
    pub fn invoke_incoming(
        &self,
        entry_point: String,
        params: Vec<u8>,
        budget: ExecutionBudget,
        resolution: Option<InjectedResult>,
    ) -> (r: Result<Invocation, EngineError>)
        ensures
            match incoming_call(
                self@,
                entry_point@,
                params@,
                budget@,
                match resolution {
                    Some(result) => Some(result@),
                    None => None,
                },
            ) {
                Ok(invocation) => r is Ok && r->Ok_0@ == invocation,
                Err(e) => r is Err && r->Err_0 == e,
            },
    {
        match resolution {
            None => self.invoke_direct(entry_point, params, budget),
            Some(result) => {
                let mut link = ContinuationLink::register(entry_point, budget)?;
                link.fire(result)?;
                self.invoke_continuation(&mut link, params)
            },
        }
    }

    /// The source of `link` has resolved: its target entry point is invoked
    /// with the result.
    ///
    /// This succeeds only for a firing link whose target is a
    /// continuation-only entry point of this actor. The invocation then
    /// carries the link's result in front of `params`, and runs on the
    /// budget that was set aside when the link was registered; the link is
    /// delivered. If the actor has no such entry point the link ends as
    /// `DeliveryFailed`. In every other case the call fails with
    /// `UnauthorizedCallback` and the link stays as it was.
    pub fn invoke_continuation(&self, link: &mut ContinuationLink, params: Vec<u8>) -> (r: Result<
        Invocation,
        EngineError,
    >)
        ensures
            match continuation_call(self@, old(link)@, params@) {
                Ok(invocation) => r is Ok && r->Ok_0@ == invocation,
                Err(e) => r is Err && r->Err_0 == e,
            },
            final(link)@ == link_after_continuation_call(self@, old(link)@),
    {
        match link.state() {
            LinkState::Firing => {},
            _ => {
                return Err(EngineError::UnauthorizedCallback);
            },
        }
        let entry_point = link.target_entry_point().clone();
        let budget = link.budget();
        match self.find(&entry_point) {
            None => {
                let _ = link.deliver(false);
                Err(EngineError::DeliveryFailed)
            },
            Some(false) => Err(EngineError::UnauthorizedCallback),
            Some(true) => {
                let result = link.deliver(true)?;
                Ok(Invocation { entry_point, injected: Some(result), params, budget })
            },
        }
    }
}

/// A continuation-only entry point cannot be reached by a direct call,
/// whatever the parameters and the budget.
pub proof fn lemma_direct_call_of_callback_is_refused(
    table: Map<Seq<char>, bool>,
    entry_point: Seq<char>,
    params: Seq<u8>,
    budget: nat,
)
    requires
        table.contains_key(entry_point),
        table[entry_point],
    ensures
        direct_call(table, entry_point, params, budget) == Err::<InvocationView, EngineError>(
            EngineError::UnauthorizedCallback,
        ),
{
}

/// An invocation never carries an injected result unless it is the
/// resolution of a firing link, and then it carries that link's result, goes
/// to a continuation-only entry point, and runs on the link's own budget.
pub proof fn lemma_injection_needs_a_fired_link(
    table: Map<Seq<char>, bool>,
    entry_point: Seq<char>,
    link: LinkView,
    params: Seq<u8>,
    budget: nat,
)
    ensures
        direct_call(table, entry_point, params, budget) matches Ok(invocation)
            ==> invocation.injected is None && !table[entry_point],
        continuation_call(table, link, params) is Ok <==> can_inject(table, link),
        continuation_call(table, link, params) matches Ok(invocation) ==> {
            &&& invocation.injected == Some(link.pending->0)
            &&& invocation.entry_point == link.target_entry_point
            &&& invocation.budget == link.budget
            &&& invocation.params == params
            &&& link_after_continuation_call(table, link).state == LinkState::Delivered
        },
{
}

/// The result of a link is injected at most once: after a resolution that
/// went through, or one that found no target, every further attempt fails
/// and leaves the link as it is.
pub proof fn lemma_injected_at_most_once(
    table: Map<Seq<char>, bool>,
    link: LinkView,
    params: Seq<u8>,
    again: Seq<u8>,
)
    requires
        link.state == LinkState::Firing,
        !table.contains_key(link.target_entry_point) || table[link.target_entry_point],
    ensures
        ({
            let after = link_after_continuation_call(table, link);
            &&& after.state == LinkState::Delivered || after.state == LinkState::DeliveryFailed
            &&& continuation_call(table, after, again) == Err::<InvocationView, EngineError>(
                EngineError::UnauthorizedCallback,
            )
            &&& link_after_continuation_call(table, after) == after
        }),
{
}

} // verus!
