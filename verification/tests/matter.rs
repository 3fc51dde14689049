use switcher::bridge::BridgeStatus;
use switcher::matter::{
    endpoint_clusters, endpoint_device_types, node_layout, EndpointRole, AGGREGATOR_DEVICE_TYPE,
    BRIDGED_NODE_DEVICE_TYPE, ON_OFF_LIGHT_DEVICE_TYPE, ROOT_NODE_DEVICE_TYPE, bridged_cluster, check_bridged_count, mirror_status, node_endpoint_ids, requested_state,
    route_request, slot_for, BridgedCluster, MatterError, MatterNodeConfig, MatterTarget,
};
use switcher::protocol::RelayState;

#[test]
fn matter_defaults_and_layout() {
    assert_eq!(MatterNodeConfig::default().port, 5540);
    assert_eq!(check_bridged_count(4), Ok(()));
    assert_eq!(check_bridged_count(5), Err(MatterError::TooManyDongles(5)));
    assert_eq!(node_endpoint_ids(&vec![2, 3]), vec![0, 1, 2, 3]);
}

#[test]
fn matter_requests_are_routed() {
    assert_eq!(route_request(0, 0x0006), MatterTarget::Root);
    assert_eq!(route_request(1, 0x001d), MatterTarget::AggregatorDescriptor);
    assert_eq!(route_request(1, 0x0006), MatterTarget::Bridged);
    assert_eq!(route_request(2, 0x001d), MatterTarget::Bridged);
    assert_eq!(bridged_cluster(0x0006), Some(BridgedCluster::OnOff));
    assert_eq!(bridged_cluster(0x0039), Some(BridgedCluster::BridgedInfo));
    assert_eq!(bridged_cluster(0x1234), None);
    assert_eq!(slot_for(&vec![2, 3, 3], 3), Some(1));
    assert_eq!(slot_for(&vec![2, 3], 9), None);
}

#[test]
fn matter_mirrors_bridge_status() {
    let mut status = BridgeStatus::default();
    status.record_notification(RelayState::On);
    assert_eq!(mirror_status(&status), (true, true));
    assert_eq!(requested_state(false), RelayState::Off);
}

#[test]
fn matter_node_layout_has_roles_device_types_and_clusters() {
    assert_eq!(
        node_layout(&vec![2, 3]),
        vec![
            (0, EndpointRole::Root),
            (1, EndpointRole::Aggregator),
            (2, EndpointRole::Bridged),
            (3, EndpointRole::Bridged),
        ]
    );
    assert_eq!(node_layout(&vec![]), vec![(0, EndpointRole::Root), (1, EndpointRole::Aggregator)]);
    assert_eq!(endpoint_device_types(EndpointRole::Root), vec![ROOT_NODE_DEVICE_TYPE]);
    assert_eq!(endpoint_device_types(EndpointRole::Aggregator), vec![0x000e]);
    assert_eq!(AGGREGATOR_DEVICE_TYPE, 0x000e);
    assert_eq!(
        endpoint_device_types(EndpointRole::Bridged),
        vec![ON_OFF_LIGHT_DEVICE_TYPE, BRIDGED_NODE_DEVICE_TYPE]
    );
    assert_eq!(endpoint_device_types(EndpointRole::Bridged), vec![0x0100, 0x0013]);
    assert_eq!(endpoint_clusters(EndpointRole::Root), None);
    assert_eq!(endpoint_clusters(EndpointRole::Aggregator), Some(vec![0x001d]));
    assert_eq!(endpoint_clusters(EndpointRole::Bridged), Some(vec![0x001d, 0x0004, 0x0039, 0x0006]));
}
