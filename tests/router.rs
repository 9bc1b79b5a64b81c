use rs_ts_api::builder::RpcBuilder;
use rs_ts_api::describe::{HandlerType, TypeDependency};
use rs_ts_api::router::{Handler, Router};

#[allow(non_camel_case_types)]
struct sample_handler;
impl Handler for sample_handler {
    fn register(rpc_builder: RpcBuilder) -> RpcBuilder {
        rpc_builder
    }

    fn get_type() -> HandlerType {
        HandlerType {
            name: "sample_handler".to_string(),
            signature: "() => void".to_string(),
            dependencies: Vec::new(),
        }
    }
}

#[allow(non_camel_case_types)]
struct another_handler;
impl Handler for another_handler {
    fn register(rpc_builder: RpcBuilder) -> RpcBuilder {
        rpc_builder
    }

    fn get_type() -> HandlerType {
        HandlerType {
            name: "another_handler".to_string(),
            signature: "() => number".to_string(),
            dependencies: Vec::new(),
        }
    }
}

fn user_dependency() -> TypeDependency {
    TypeDependency { ts_name: "User".to_string(), exported_to: "bindings/User.ts".to_string() }
}

struct get_user;
impl Handler for get_user {
    fn register(mut rpc_builder: RpcBuilder) -> RpcBuilder {
        rpc_builder.reserve_query("get_user").ok().unwrap();
        rpc_builder
    }

    fn get_type() -> HandlerType {
        HandlerType {
            name: "get_user".to_string(),
            signature: "(id: number) => User".to_string(),
            dependencies: vec![user_dependency()],
        }
    }
}

struct list_users;
impl Handler for list_users {
    fn register(mut rpc_builder: RpcBuilder) -> RpcBuilder {
        rpc_builder.reserve_query("list_users").ok().unwrap();
        rpc_builder
    }

    fn get_type() -> HandlerType {
        HandlerType {
            name: "list_users".to_string(),
            signature: "() => Array<User>".to_string(),
            dependencies: vec![
                user_dependency(),
                TypeDependency { ts_name: "Page".to_string(), exported_to: "Page.ts".to_string() },
            ],
        }
    }
}

#[test]
fn empty_router() {
    let router = Router::new();
    assert_eq!(router.structural_type(), "{  }");
    assert_eq!(router.get_type(), "type Router = {  };");
}

#[test]
fn namespaced_empty_router() {
    let router = Router::namespace("ns");
    assert_eq!(router.structural_type(), "{ ns: {  } }");
    assert_eq!(router.get_type(), "type Router = { ns: {  } };");
}

#[test]
fn single_handler() {
    let router = Router::new().handler(sample_handler);
    assert_eq!(router.structural_type(), "{ sample_handler: () => void }");
    assert_eq!(router.get_type(), "type Router = { sample_handler: () => void };");
}

#[test]
fn namespaced_single_handler() {
    let router = Router::namespace("ns").handler(sample_handler);
    assert_eq!(router.structural_type(), "{ ns: { sample_handler: () => void } }");
    assert_eq!(router.get_type(), "type Router = { ns: { sample_handler: () => void } };");
}

#[test]
fn multiple_handlers() {
    let router = Router::new()
        .handler(sample_handler)
        .handler(another_handler);
    assert_eq!(
        router.structural_type(),
        "{ sample_handler: () => void, another_handler: () => number }"
    );
    assert_eq!(
        router.get_type(),
        "type Router = { sample_handler: () => void, another_handler: () => number };"
    );
}

#[test]
fn namespaced_multiple_handlers() {
    let router = Router::namespace("ns")
        .handler(sample_handler)
        .handler(another_handler);
    assert_eq!(
        router.structural_type(),
        "{ ns: { sample_handler: () => void, another_handler: () => number } }"
    );
    assert_eq!(
        router.get_type(),
        "type Router = { ns: { sample_handler: () => void, another_handler: () => number } };"
    );
}

#[test]
fn members_follow_registration_order() {
    let forward = Router::new().handler(another_handler).handler(sample_handler);
    assert_eq!(
        forward.structural_type(),
        "{ another_handler: () => number, sample_handler: () => void }"
    );
}

#[test]
fn shared_dependency_is_imported_once() {
    let router = Router::new().handler(get_user).handler(list_users);
    assert_eq!(
        router.get_type(),
        "import type { User } from \"./bindings/User\";\n\
         import type { Page } from \"./Page\";\n\
         type Router = { get_user: (id: number) => User, list_users: () => Array<User> };"
    );
}

#[test]
fn handler_registers_its_procedures() {
    let router = Router::new().handler(get_user).handler(list_users);
    let builder = router.into_builder();
    assert!(builder.is_taken("get_user"));
    assert!(builder.is_taken("list_users"));
    assert!(!builder.is_taken("sample_handler"));
}

#[test]
fn record_appends_handler_type() {
    let router = Router::namespace("api").record(get_user::get_type());
    assert_eq!(
        router.get_type(),
        "import type { User } from \"./bindings/User\";\ntype Router = { api: { get_user: (id: number) => User } };"
    );
}
