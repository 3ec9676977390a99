use proxmoxy::backend::https::{authorization, request_url};
use proxmoxy::defs::{Auth, BackendConfig};
use proxmoxy::path::{
    query, PathNNVVConfig, PathNNVVm, PathNNVms, PathNNode, PathNodes, PathStop, PathStopId,
    PathStopPure, PathStorage, PathTop,
};

fn top() -> PathTop {
    PathTop::from_parts(Vec::new())
}

#[test]
fn test_create_paths() {
    println!();

    let api_token = Auth::Token("username".to_owned(), "password".to_owned());
    let api_cfg = BackendConfig {
        auth: api_token,
        url: "http://127.0.0.1:6".to_owned(),
    };
    assert_eq!(authorization(&api_cfg.auth), "PVEAPIToken=username=password");
    assert_eq!(
        request_url(&api_cfg.url, &query(top().nodes().id("local").parts())),
        "http://127.0.0.1:6/api2/json/nodes/local"
    );

    println!("{}", top().parts().join("/"));

    println!("{}", top().nodes().parts().join("/"));
    println!("{}", top().nodes().id("local").parts().join("/"));
    println!("{}", top().nodes().id("local").qemu().parts().join("/"));
    println!(
        "{}",
        top().nodes().id("local").qemu().id(616).parts().join("/")
    );
    println!(
        "{}",
        top()
            .nodes()
            .id("local")
            .qemu()
            .id(616)
            .config()
            .parts()
            .join("/")
    );

    println!("{}", top().storage().parts().join("/"));

    assert_eq!(top().parts().join("/"), "");
    assert_eq!(top().nodes().parts().join("/"), "nodes");
    assert_eq!(top().nodes().id("local").parts().join("/"), "nodes/local");
    assert_eq!(
        top().nodes().id("local").qemu().parts().join("/"),
        "nodes/local/qemu"
    );
    assert_eq!(
        top().nodes().id("local").qemu().id(616).parts().join("/"),
        "nodes/local/qemu/616"
    );
    assert_eq!(
        top()
            .nodes()
            .id("local")
            .qemu()
            .id(616)
            .config()
            .parts()
            .join("/"),
        "nodes/local/qemu/616/config"
    );
    assert_eq!(top().storage().parts().join("/"), "storage");
}

#[test]
fn query_joins_the_parts_with_slashes() {
    assert_eq!(query(&[]), "");
    assert_eq!(query(&["nodes".to_owned()]), "nodes");
    assert_eq!(
        query(top().nodes().id("n1").qemu().id(150).config().parts()),
        "nodes/n1/qemu/150/config"
    );
    assert_eq!(
        query(&["a".to_owned(), "".to_owned(), "b".to_owned()]),
        "a//b"
    );
}

#[test]
fn paths_keep_their_identifiers() {
    let node = top().nodes().id("pve-1");
    assert_eq!(node.id(), "pve-1");
    let vm = node.qemu().id(4_294_967_295);
    assert_eq!(vm.id(), 4_294_967_295);
    assert_eq!(vm.parts().join("/"), "nodes/pve-1/qemu/4294967295");
    assert_eq!(top().nodes().id("x").qemu().id(0).parts().join("/"), "nodes/x/qemu/0");
    assert_eq!(top().nodes().id("x").qemu().id(10).parts().join("/"), "nodes/x/qemu/10");
}

#[test]
fn paths_can_start_from_given_parts() {
    let parts = vec!["api2".to_owned(), "json".to_owned()];
    let node = PathNNode::from_parts_with_id(parts.clone(), "n2");
    assert_eq!(node.parts().join("/"), "api2/json/n2");
    assert_eq!(node.id(), "n2");
    let vm = PathNNVVm::from_parts_with_id(parts, 101);
    assert_eq!(vm.parts().join("/"), "api2/json/101");
    assert_eq!(vm.id(), 101);
}

#[test]
fn endpoints_are_described() {
    assert_eq!(PathTop::desc(), "top-level API data");
    assert_eq!(PathStorage::desc(), "storage definitions");
    assert_eq!(PathNodes::desc(), "cluster nodes");
    assert_eq!(PathNNode::desc(), "single cluster node");
    assert_eq!(PathNNVms::desc(), "virtual machines on a node");
    assert_eq!(PathNNVVm::desc(), "virtual machine");
    assert_eq!(PathNNVVConfig::desc(), "configuration of a virtual machine");
}
