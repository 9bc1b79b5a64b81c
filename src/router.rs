use crate::builder::RpcBuilder;
use crate::describe::{
    describe, description_text, handlers_view, namespace_view, router_type, router_type_text,
    HandlerModel, HandlerType,
};
use vstd::prelude::*;

verus! {

/// A procedure that a router can serve.
///
/// `register` adds the procedure (or procedures) to the builder, keeping
/// every name claimed there before: the names after it are
/// `registered(names)`. `get_type` states the handler's name, signature and
/// the types it depends on, which are `descriptor()` whenever it is asked.
pub trait Handler {
    /// What `get_type` returns for this handler. A handler states it in its
    /// own impl; left as it is, nothing is known of it.
    closed spec fn descriptor() -> HandlerModel {
        arbitrary()
    }

    /// The procedure names claimed after `register` ran on a builder that
    /// held `names`. A handler states it in its own impl; left as it is,
    /// nothing is known of it but that `names` stay in front.
    closed spec fn registered(names: Seq<Seq<char>>) -> Seq<Seq<char>> {
        arbitrary()
    }

    fn register(rpc_builder: RpcBuilder) -> (r: RpcBuilder)
        ensures
            rpc_builder@.is_prefix_of(r@),
            r@ == Self::registered(rpc_builder@),
    ;

    fn get_type() -> (r: HandlerType)
        ensures
            r@ == Self::descriptor(),
    ;
}

/// The mathematical content of a `Router`.
pub struct RouterModel {
    pub name: Option<Seq<char>>,
    pub handlers: Seq<HandlerModel>,
}

/// A set of procedures, optionally under a namespace, that becomes either a
/// running service or a type description.
pub struct Router {
    name: Option<String>,
    handlers: Vec<HandlerType>,
    rpc_builder: RpcBuilder,
}

impl View for Router {
    type V = RouterModel;

    closed spec fn view(&self) -> RouterModel {
        RouterModel { name: namespace_view(self.name), handlers: handlers_view(self.handlers@) }
    }
}

impl Router {
    /// The procedure names claimed in the router's builder.
    pub closed spec fn procedure_names(&self) -> Seq<Seq<char>> {
        self.rpc_builder@
    }

    /// A router with no handlers and no namespace.
    pub fn new() -> (r: Self)
        ensures
            r@.name == None::<Seq<char>>,
            r@.handlers == Seq::<HandlerModel>::empty(),
            r.procedure_names() == Seq::<Seq<char>>::empty(),
    {
        let r = Router { name: None, handlers: Vec::new(), rpc_builder: RpcBuilder::new() };
        assert(r@.handlers =~= Seq::<HandlerModel>::empty());
        r
    }

    /// A router with no handlers under the namespace `name`.
    pub fn namespace(name: &str) -> (r: Self)
        ensures
            r@.name == Some(name@),
            r@.handlers == Seq::<HandlerModel>::empty(),
            r.procedure_names() == Seq::<Seq<char>>::empty(),
    {
        let r = Router {
            name: Some(String::from_str(name)),
            handlers: Vec::new(),
            rpc_builder: RpcBuilder::new(),
        };
        assert(r@.handlers =~= Seq::<HandlerModel>::empty());
        r
    }

    /// Records one more handler's type at the end of the router's list.
    pub fn record(self, ty: HandlerType) -> (r: Self)
        ensures
            r@.name == self@.name,
            r@.handlers == self@.handlers.push(ty@),
            r.procedure_names() == self.procedure_names(),
    {
        let Router { name, handlers, rpc_builder } = self;
        let mut handlers = handlers;
        let ghost prev = handlers@;
        handlers.push(ty);
        let r = Router { name, handlers, rpc_builder };
        assert(r@.handlers =~= handlers_view(prev).push(ty@));
        r
    }

    /// Adds the handler `H`: its procedures go into the builder and its type
    /// at the end of the router's list.
    pub fn handler<H: Handler>(self, _h: H) -> (r: Self)
        ensures
            r@.name == self@.name,
            r@.handlers == self@.handlers.push(H::descriptor()),
            self.procedure_names().is_prefix_of(r.procedure_names()),
            r.procedure_names() == H::registered(self.procedure_names()),
    {
        let Router { name, handlers, rpc_builder } = self;
        let rpc_builder = H::register(rpc_builder);
        Router { name, handlers, rpc_builder }.record(H::get_type())
    }

    /// The structural type of the router: `{ name: signature, ... }`, nested
    /// under its namespace if it has one.
    pub fn structural_type(&self) -> (r: String)
        ensures
            r@ == router_type_text(self@.name, self@.handlers),
    {
        router_type(&self.name, &self.handlers)
    }

    /// The type description of the router: an import statement for each
    /// distinct dependency, then `type Router = ...;`, one per line.
    pub fn get_type(&self) -> (r: String)
        ensures
            r@ == description_text(self@.name, self@.handlers),
    {
        describe(&self.name, &self.handlers)
    }

    /// Gives up the router for the builder that holds its procedures.
    pub fn into_builder(self) -> (r: RpcBuilder)
        ensures
            r@ == self.procedure_names(),
    {
        self.rpc_builder
    }
}

} // verus!
