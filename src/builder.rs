use jsonrpsee::RpcModule;
use crate::describe::{contains_string, lemma_push_contains, strings_view};
use vstd::prelude::*;

verus! {

/// Declares `jsonrpsee::RpcModule`, the transport's dispatch table, which is
/// carried through opaquely.
#[verifier::external_type_specification]
#[verifier::external_body]
#[verifier::reject_recursive_types(Context)]
pub struct ExRpcModule<Context>(RpcModule<Context>);

/// Relies on `jsonrpsee::RpcModule::new`: builds a module with no methods
/// around the given context.
pub assume_specification<Context>[ RpcModule::<Context>::new ](ctx: Context) -> RpcModule<
    Context,
>;

/// A procedure name that was already taken in the builder.
pub struct DuplicateProcedureName {
    pub name: String,
}

/// The first of the names of a subscription, `sub`, `notif` and `unsub` in
/// that order, that is taken already, in `taken` or by an earlier one of the
/// three.
pub open spec fn subscription_conflict(
    taken: Seq<Seq<char>>,
    sub: Seq<char>,
    notif: Seq<char>,
    unsub: Seq<char>,
) -> Option<Seq<char>> {
    if taken.contains(sub) {
        Some(sub)
    } else if taken.push(sub).contains(notif) {
        Some(notif)
    } else if taken.push(sub).push(notif).contains(unsub) {
        Some(unsub)
    } else {
        None
    }
}

/// Collects the procedures of a service before it is started.
///
/// `module` is the dispatch table that the transport serves; every name that
/// it is given is first claimed here, so that no two procedures share a name.
pub struct RpcBuilder {
    pub module: RpcModule<()>,
    names: Vec<String>,
}

impl View for RpcBuilder {
    type V = Seq<Seq<char>>;

    /// The procedure names claimed so far, in the order they were claimed.
    closed spec fn view(&self) -> Seq<Seq<char>> {
        strings_view(self.names@)
    }
}

impl RpcBuilder {
    /// A builder with no procedures.
    pub fn new() -> (r: Self)
        ensures
            r@ == Seq::<Seq<char>>::empty(),
    {
        let r = RpcBuilder { module: RpcModule::new(()), names: Vec::new() };
        assert(r@ =~= Seq::<Seq<char>>::empty());
        r
    }

    /// Whether `name` was claimed already.
    pub fn is_taken(&self, name: &str) -> (r: bool)
        ensures
            r == self@.contains(name@),
    {
        contains_string(&self.names, &String::from_str(name))
    }

    fn claim(&mut self, name: &str)
        ensures
            final(self)@ == old(self)@.push(name@),
            final(self).module == old(self).module,
    {
        let ghost prev = self.names@;
        self.names.push(String::from_str(name));
        assert(self@ =~= strings_view(prev).push(name@));
    }

    /// Claims the name of a request/response procedure.
    ///
    /// Fails, leaving the builder as it was, exactly when the name is taken.
    pub fn reserve_query(&mut self, name: &str) -> (r: Result<(), DuplicateProcedureName>)
        ensures
            match r {
                Ok(()) => !old(self)@.contains(name@) && final(self)@ == old(self)@.push(name@),
                Err(e) => old(self)@.contains(name@) && e.name@ == name@ && final(self)@
                    == old(self)@,
            },
    {
        if self.is_taken(name) {
            return Err(DuplicateProcedureName { name: String::from_str(name) });
        }
        self.claim(name);
        Ok(())
    }

    /// Claims the three names of a subscription: the subscribe method, the
    /// notification and the unsubscribe method.
    ///
    /// Fails, leaving the builder as it was, exactly when one of them is taken
    /// already or two of them are equal; the error names the first such one.
    pub fn reserve_subscription(&mut self, name: &str, notification_name: &str, unsubscribe_name: &str) -> (r:
        Result<(), DuplicateProcedureName>)
        ensures
            match subscription_conflict(old(self)@, name@, notification_name@, unsubscribe_name@) {
                None => r is Ok && final(self)@ == old(self)@.push(name@).push(
                    notification_name@,
                ).push(unsubscribe_name@),
                Some(n) => r is Err && r->Err_0.name@ == n && final(self)@ == old(self)@,
            },
    {
        let ghost taken = self@;
        if self.is_taken(name) {
            return Err(DuplicateProcedureName { name: String::from_str(name) });
        }
        proof {
            lemma_push_contains(taken, name@, notification_name@);
        }
        if self.is_taken(notification_name) || str_eq(notification_name, name) {
            return Err(DuplicateProcedureName { name: String::from_str(notification_name) });
        }
        proof {
            lemma_push_contains(taken.push(name@), notification_name@, unsubscribe_name@);
            lemma_push_contains(taken, name@, unsubscribe_name@);
        }
        if self.is_taken(unsubscribe_name) || str_eq(unsubscribe_name, name) || str_eq(
            unsubscribe_name,
            notification_name,
        ) {
            return Err(DuplicateProcedureName { name: String::from_str(unsubscribe_name) });
        }
        self.claim(name);
        self.claim(notification_name);
        self.claim(unsubscribe_name);
        Ok(())
    }
}

/// Whether two strings are equal.
fn str_eq(a: &str, b: &str) -> (r: bool)
    ensures
        r == (a@ == b@),
{
    let x = String::from_str(a);
    let y = String::from_str(b);
    x == y
}

} // verus!
