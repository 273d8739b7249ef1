use synth_table::get_processing_job::{
    get_subnet_list, NatGateway, NetworkTopology, Route, RouteTable, Subnet, SubnetSearchError,
    ValidSubnet,
};

fn nat_route(gw: &str) -> Route {
    Route { destination: "0.0.0.0/0".to_string(), nat_gateway_id: Some(gw.to_string()) }
}

fn local_route() -> Route {
    Route { destination: "10.0.0.0/16".to_string(), nat_gateway_id: None }
}

fn subnet(id: &str, vpc: &str, private: bool, capacity: u32) -> Subnet {
    Subnet {
        id: id.to_string(),
        vpc_id: vpc.to_string(),
        is_private: private,
        available_ip_count: capacity,
    }
}

fn table(id: &str, subnets: &[&str], routes: Vec<Route>) -> RouteTable {
    RouteTable {
        id: id.to_string(),
        subnet_ids: subnets.iter().map(|s| s.to_string()).collect(),
        routes,
    }
}

#[test]
fn single_valid_path_found() {
    let topology = NetworkTopology {
        vpc_ids: vec!["vpc-1".to_string()],
        subnets: vec![subnet("subnet-1", "vpc-1", true, 5)],
        nat_gateways: vec![NatGateway { id: "nat-1".to_string(), vpc_id: "vpc-1".to_string() }],
        route_tables: vec![table("rtb-1", &["subnet-1"], vec![local_route(), nat_route("nat-1")])],
    };
    let found = get_subnet_list(&topology).unwrap();
    assert_eq!(found.len(), 1);
    assert_eq!(found[0].get_vpc().as_str(), "vpc-1");
    assert_eq!(found[0].get_subnet().as_str(), "subnet-1");
}

#[test]
fn cross_network_nat_is_not_a_path() {
    // The subnet is private and has capacity, but its route table reaches
    // only a NAT gateway that sits in a different virtual network.
    let topology = NetworkTopology {
        vpc_ids: vec!["vpc-1".to_string(), "vpc-2".to_string()],
        subnets: vec![subnet("subnet-1", "vpc-1", true, 5)],
        nat_gateways: vec![NatGateway { id: "nat-2".to_string(), vpc_id: "vpc-2".to_string() }],
        route_tables: vec![table("rtb-1", &["subnet-1"], vec![nat_route("nat-2")])],
    };
    assert!(matches!(get_subnet_list(&topology), Err(SubnetSearchError::NoValidPathFound)));
}

#[test]
fn no_networks_is_its_own_error() {
    let topology = NetworkTopology {
        vpc_ids: vec![],
        subnets: vec![],
        nat_gateways: vec![],
        route_tables: vec![],
    };
    assert!(matches!(get_subnet_list(&topology), Err(SubnetSearchError::NoNetworksAvailable)));
}

#[test]
fn public_subnet_is_excluded() {
    let topology = NetworkTopology {
        vpc_ids: vec!["vpc-1".to_string()],
        subnets: vec![subnet("subnet-1", "vpc-1", false, 5)],
        nat_gateways: vec![NatGateway { id: "nat-1".to_string(), vpc_id: "vpc-1".to_string() }],
        route_tables: vec![table("rtb-1", &["subnet-1"], vec![nat_route("nat-1")])],
    };
    assert!(matches!(get_subnet_list(&topology), Err(SubnetSearchError::NoValidPathFound)));
}

#[test]
fn exhausted_subnet_is_excluded() {
    let topology = NetworkTopology {
        vpc_ids: vec!["vpc-1".to_string()],
        subnets: vec![subnet("subnet-1", "vpc-1", true, 0)],
        nat_gateways: vec![NatGateway { id: "nat-1".to_string(), vpc_id: "vpc-1".to_string() }],
        route_tables: vec![table("rtb-1", &["subnet-1"], vec![nat_route("nat-1")])],
    };
    assert!(matches!(get_subnet_list(&topology), Err(SubnetSearchError::NoValidPathFound)));
}

#[test]
fn subnet_without_nat_route_is_excluded() {
    let topology = NetworkTopology {
        vpc_ids: vec!["vpc-1".to_string()],
        subnets: vec![subnet("subnet-1", "vpc-1", true, 5)],
        nat_gateways: vec![NatGateway { id: "nat-1".to_string(), vpc_id: "vpc-1".to_string() }],
        route_tables: vec![table("rtb-1", &["subnet-1"], vec![local_route()])],
    };
    assert!(matches!(get_subnet_list(&topology), Err(SubnetSearchError::NoValidPathFound)));
}

#[test]
fn route_table_of_other_subnet_does_not_help() {
    let topology = NetworkTopology {
        vpc_ids: vec!["vpc-1".to_string()],
        subnets: vec![subnet("subnet-1", "vpc-1", true, 5)],
        nat_gateways: vec![NatGateway { id: "nat-1".to_string(), vpc_id: "vpc-1".to_string() }],
        route_tables: vec![table("rtb-1", &["subnet-9"], vec![nat_route("nat-1")])],
    };
    assert!(matches!(get_subnet_list(&topology), Err(SubnetSearchError::NoValidPathFound)));
}

#[test]
fn candidates_come_in_discovery_order() {
    let topology = NetworkTopology {
        vpc_ids: vec!["vpc-1".to_string(), "vpc-2".to_string()],
        subnets: vec![
            subnet("subnet-b", "vpc-2", true, 3),
            subnet("subnet-a", "vpc-1", true, 7),
            subnet("subnet-c", "vpc-2", true, 1),
        ],
        nat_gateways: vec![
            NatGateway { id: "nat-1".to_string(), vpc_id: "vpc-1".to_string() },
            NatGateway { id: "nat-2".to_string(), vpc_id: "vpc-2".to_string() },
        ],
        route_tables: vec![
            table("rtb-1", &["subnet-a"], vec![nat_route("nat-1")]),
            table("rtb-2", &["subnet-b", "subnet-c"], vec![nat_route("nat-2")]),
        ],
    };
    let found = get_subnet_list(&topology).unwrap();
    let ids: Vec<&str> = found.iter().map(|v| v.get_subnet().as_str()).collect();
    assert_eq!(ids, vec!["subnet-a", "subnet-b", "subnet-c"]);
}

#[test]
fn candidate_displays_subnet_and_network() {
    let v = ValidSubnet { vpc: "vpc-1".to_string(), subnet: "subnet-1".to_string() };
    assert_eq!(v.format_for_display(), "Subnet: subnet-1 in VPC: vpc-1");
}
