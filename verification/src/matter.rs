//! How the hub lays out its Matter bridge: the node's endpoints, and which
//! handler answers a request for an endpoint and cluster.

use vstd::prelude::*;
use crate::bridge::BridgeStatus;
use crate::protocol::RelayState;

verus! {

/// Settings of the Matter node.
#[derive(Debug, Clone, Copy, PartialEq, Eq, Structural)]
pub struct MatterNodeConfig {
    pub port: u16,
}

/// The standard Matter port.
pub const MATTER_PORT: u16 = 5540;

impl Default for MatterNodeConfig {
    fn default() -> (c: MatterNodeConfig)
        ensures
            c.port == MATTER_PORT,
    {
        MatterNodeConfig { port: MATTER_PORT }
    }
}

/// The most dongles one hub bridges.
pub const MAX_BRIDGED_DONGLES: usize = 4;

/// Endpoint of the node's root device.
pub const ROOT_ENDPOINT_ID: u16 = 0;
/// Endpoint of the aggregator that the bridged dongles hang under.
pub const AGGREGATOR_ENDPOINT_ID: u16 = 1;

/// Matter cluster ids the bridged endpoints carry.
pub const DESCRIPTOR_CLUSTER_ID: u32 = 0x001d;
pub const GROUPS_CLUSTER_ID: u32 = 0x0004;
pub const BRIDGED_DEVICE_BASIC_INFORMATION_CLUSTER_ID: u32 = 0x0039;
pub const ON_OFF_CLUSTER_ID: u32 = 0x0006;

/// Why the Matter node cannot start.
#[derive(Debug, Clone, Copy, PartialEq, Eq, Structural)]
pub enum MatterError {
    /// More dongles are enabled than one node bridges; carries their number.
    TooManyDongles(usize),
}

/// Checks that the enabled dongles fit on one node.
pub fn check_bridged_count(enabled: usize) -> (r: Result<(), MatterError>)
    ensures
        r == (if enabled > MAX_BRIDGED_DONGLES {
            Err::<(), MatterError>(MatterError::TooManyDongles(enabled))
        } else {
            Ok(())
        }),
{
    if enabled > MAX_BRIDGED_DONGLES {
        Err(MatterError::TooManyDongles(enabled))
    } else {
        Ok(())
    }
}

/// The node's endpoints: the root, the aggregator, then one per bridged dongle.
pub fn node_endpoint_ids(bridged: &Vec<u16>) -> (ids: Vec<u16>)
    ensures
        ids@ == seq![ROOT_ENDPOINT_ID, AGGREGATOR_ENDPOINT_ID] + bridged@,
{
    let mut ids: Vec<u16> = Vec::new();
    ids.push(ROOT_ENDPOINT_ID);
    ids.push(AGGREGATOR_ENDPOINT_ID);
    let mut i: usize = 0;
    while i < bridged.len()
        invariant
            i <= bridged@.len(),
            ids@ == seq![ROOT_ENDPOINT_ID, AGGREGATOR_ENDPOINT_ID] + bridged@.take(i as int),
        decreases bridged@.len() - i,
    {
        ids.push(bridged[i]);
        i = i + 1;
        assert(ids@ =~= seq![ROOT_ENDPOINT_ID, AGGREGATOR_ENDPOINT_ID] + bridged@.take(i as int));
    }
    assert(bridged@.take(bridged@.len() as int) =~= bridged@);
    ids
}

/// Matter device type ids of the node's endpoints.
pub const ROOT_NODE_DEVICE_TYPE: u16 = 0x0016;
pub const AGGREGATOR_DEVICE_TYPE: u16 = 0x000e;
pub const ON_OFF_LIGHT_DEVICE_TYPE: u16 = 0x0100;
pub const BRIDGED_NODE_DEVICE_TYPE: u16 = 0x0013;

/// What an endpoint of the node is.
#[derive(Debug, Clone, Copy, PartialEq, Eq, Structural)]
pub enum EndpointRole {
    /// The root device; the Matter stack supplies its system clusters.
    Root,
    /// The aggregator the bridged dongles hang under.
    Aggregator,
    /// One bridged dongle.
    Bridged,
}

/// The role of the endpoint at each position of the node.
pub open spec fn role_at(position: int) -> EndpointRole {
    if position == 0 {
        EndpointRole::Root
    } else if position == 1 {
        EndpointRole::Aggregator
    } else {
        EndpointRole::Bridged
    }
}

/// The node's endpoints with their roles: the root at 0, the aggregator at 1,
/// then each bridged dongle at its own endpoint id.
pub fn node_layout(bridged: &Vec<u16>) -> (layout: Vec<(u16, EndpointRole)>)
    ensures
        layout@.len() == bridged@.len() + 2,
        forall|i: int|
            0 <= i < layout@.len() ==> (#[trigger] layout@[i]).0 == (seq![
                ROOT_ENDPOINT_ID,
                AGGREGATOR_ENDPOINT_ID,
            ] + bridged@)[i] && layout@[i].1 == role_at(i),
{
    let ids = node_endpoint_ids(bridged);
    let mut layout: Vec<(u16, EndpointRole)> = Vec::new();
    let mut i: usize = 0;
    while i < ids.len()
        invariant
            i <= ids@.len(),
            ids@ == seq![ROOT_ENDPOINT_ID, AGGREGATOR_ENDPOINT_ID] + bridged@,
            layout@.len() == i,
            forall|k: int|
                0 <= k < i ==> (#[trigger] layout@[k]).0 == ids@[k] && layout@[k].1 == role_at(k),
        decreases ids@.len() - i,
    {
        let role = if i == 0 {
            EndpointRole::Root
        } else if i == 1 {
            EndpointRole::Aggregator
        } else {
            EndpointRole::Bridged
        };
        layout.push((ids[i], role));
        i = i + 1;
    }
    layout
}

/// The device types an endpoint of each role declares.
pub open spec fn role_device_types(role: EndpointRole) -> Seq<u16> {
    match role {
        EndpointRole::Root => seq![ROOT_NODE_DEVICE_TYPE],
        EndpointRole::Aggregator => seq![AGGREGATOR_DEVICE_TYPE],
        EndpointRole::Bridged => seq![ON_OFF_LIGHT_DEVICE_TYPE, BRIDGED_NODE_DEVICE_TYPE],
    }
}

pub fn endpoint_device_types(role: EndpointRole) -> (types: Vec<u16>)
    ensures
        types@ == role_device_types(role),
{
    let mut types: Vec<u16> = Vec::new();
    match role {
        EndpointRole::Root => {
            types.push(ROOT_NODE_DEVICE_TYPE);
        },
        EndpointRole::Aggregator => {
            types.push(AGGREGATOR_DEVICE_TYPE);
        },
        EndpointRole::Bridged => {
            types.push(ON_OFF_LIGHT_DEVICE_TYPE);
            types.push(BRIDGED_NODE_DEVICE_TYPE);
        },
    }
    assert(types@ =~= role_device_types(role));
    types
}

/// The clusters an endpoint of each role carries; `None` for the root, whose
/// system clusters come with the Matter stack.
pub open spec fn role_clusters(role: EndpointRole) -> Option<Seq<u32>> {
    match role {
        EndpointRole::Root => None,
        EndpointRole::Aggregator => Some(seq![DESCRIPTOR_CLUSTER_ID]),
        EndpointRole::Bridged => Some(
            seq![
                DESCRIPTOR_CLUSTER_ID,
                GROUPS_CLUSTER_ID,
                BRIDGED_DEVICE_BASIC_INFORMATION_CLUSTER_ID,
                ON_OFF_CLUSTER_ID,
            ],
        ),
    }
}

pub fn endpoint_clusters(role: EndpointRole) -> (clusters: Option<Vec<u32>>)
    ensures
        match clusters {
            Some(c) => role_clusters(role) == Some(c@),
            None => role_clusters(role) == None::<Seq<u32>>,
        },
{
    match role {
        EndpointRole::Root => None,
        EndpointRole::Aggregator => {
            let mut c: Vec<u32> = Vec::new();
            c.push(DESCRIPTOR_CLUSTER_ID);
            assert(c@ =~= seq![DESCRIPTOR_CLUSTER_ID]);
            Some(c)
        },
        EndpointRole::Bridged => {
            let mut c: Vec<u32> = Vec::new();
            c.push(DESCRIPTOR_CLUSTER_ID);
            c.push(GROUPS_CLUSTER_ID);
            c.push(BRIDGED_DEVICE_BASIC_INFORMATION_CLUSTER_ID);
            c.push(ON_OFF_CLUSTER_ID);
            assert(c@ =~= seq![
                DESCRIPTOR_CLUSTER_ID,
                GROUPS_CLUSTER_ID,
                BRIDGED_DEVICE_BASIC_INFORMATION_CLUSTER_ID,
                ON_OFF_CLUSTER_ID,
            ]);
            Some(c)
        },
    }
}

/// Every cluster a bridged endpoint carries is one the bridged handlers
/// answer, and the aggregator carries only the descriptor.
pub proof fn lemma_bridged_clusters_routed()
    ensures
        forall|i: int|
            0 <= i < role_clusters(EndpointRole::Bridged)->Some_0.len() ==> bridged_cluster_of(
                #[trigger] role_clusters(EndpointRole::Bridged)->Some_0[i],
            ) is Some,
        role_clusters(EndpointRole::Aggregator) == Some(seq![DESCRIPTOR_CLUSTER_ID]),
{
}

/// The handler that answers a request.
#[derive(Debug, Clone, Copy, PartialEq, Eq, Structural)]
pub enum MatterTarget {
    /// The root endpoint's system clusters.
    Root,
    /// The aggregator's descriptor cluster.
    AggregatorDescriptor,
    /// One of the bridged dongles' endpoints.
    Bridged,
}

/// Which handler answers a request for an endpoint and cluster.
pub open spec fn target_of(endpoint: u16, cluster: u32) -> MatterTarget {
    if endpoint == ROOT_ENDPOINT_ID {
        MatterTarget::Root
    } else if endpoint == AGGREGATOR_ENDPOINT_ID && cluster == DESCRIPTOR_CLUSTER_ID {
        MatterTarget::AggregatorDescriptor
    } else {
        MatterTarget::Bridged
    }
}

pub fn route_request(endpoint: u16, cluster: u32) -> (t: MatterTarget)
    ensures
        t == target_of(endpoint, cluster),
{
    if endpoint == ROOT_ENDPOINT_ID {
        MatterTarget::Root
    } else if endpoint == AGGREGATOR_ENDPOINT_ID && cluster == DESCRIPTOR_CLUSTER_ID {
        MatterTarget::AggregatorDescriptor
    } else {
        MatterTarget::Bridged
    }
}

/// Requests are dispatched by endpoint first: every request for the root
/// endpoint 0 goes to the root handler whatever its cluster; the aggregator's
/// descriptor handler answers exactly the descriptor cluster (0x001d) on
/// endpoint 1; every other request goes to the bridged dongles.
pub proof fn lemma_routing_by_endpoint(endpoint: u16, cluster: u32)
    ensures
        endpoint == 0 ==> target_of(endpoint, cluster) == MatterTarget::Root,
        target_of(endpoint, cluster) == MatterTarget::Root ==> endpoint == 0,
        target_of(endpoint, cluster) == MatterTarget::AggregatorDescriptor <==> (endpoint == 1
            && cluster == 0x001d),
        target_of(endpoint, cluster) == MatterTarget::Bridged <==> (endpoint >= 2 || (endpoint == 1
            && cluster != 0x001d)),
{
}

/// The clusters a bridged endpoint carries.
#[derive(Debug, Clone, Copy, PartialEq, Eq, Structural)]
pub enum BridgedCluster {
    Descriptor,
    Groups,
    BridgedInfo,
    OnOff,
}

/// The bridged endpoint's cluster with this id, if it carries one.
pub open spec fn bridged_cluster_of(cluster: u32) -> Option<BridgedCluster> {
    if cluster == DESCRIPTOR_CLUSTER_ID {
        Some(BridgedCluster::Descriptor)
    } else if cluster == GROUPS_CLUSTER_ID {
        Some(BridgedCluster::Groups)
    } else if cluster == BRIDGED_DEVICE_BASIC_INFORMATION_CLUSTER_ID {
        Some(BridgedCluster::BridgedInfo)
    } else if cluster == ON_OFF_CLUSTER_ID {
        Some(BridgedCluster::OnOff)
    } else {
        None
    }
}

impl BridgedCluster {
    /// The Matter cluster id this handler serves: Descriptor 0x001d, Groups
    /// 0x0004, Bridged Device Basic Information 0x0039, On/Off 0x0006.
    pub open spec fn served_cluster_id(self) -> u32 {
        match self {
            BridgedCluster::Descriptor => 0x001d,
            BridgedCluster::Groups => 0x0004,
            BridgedCluster::BridgedInfo => 0x0039,
            BridgedCluster::OnOff => 0x0006,
        }
    }
}

/// Each request on a bridged endpoint goes to the handler of the cluster it
/// names: every handler is reached by its own cluster id, and whatever
/// handler a cluster id reaches serves that id.
pub proof fn lemma_bridged_cluster_dispatch(cluster: u32, handler: BridgedCluster)
    ensures
        bridged_cluster_of(handler.served_cluster_id()) == Some(handler),
        bridged_cluster_of(cluster) matches Some(h) ==> h.served_cluster_id() == cluster,
{
}

pub fn bridged_cluster(cluster: u32) -> (c: Option<BridgedCluster>)
    ensures
        c == bridged_cluster_of(cluster),
{
    if cluster == DESCRIPTOR_CLUSTER_ID {
        Some(BridgedCluster::Descriptor)
    } else if cluster == GROUPS_CLUSTER_ID {
        Some(BridgedCluster::Groups)
    } else if cluster == BRIDGED_DEVICE_BASIC_INFORMATION_CLUSTER_ID {
        Some(BridgedCluster::BridgedInfo)
    } else if cluster == ON_OFF_CLUSTER_ID {
        Some(BridgedCluster::OnOff)
    } else {
        None
    }
}

/// The position of the bridged slot serving an endpoint: the first with that id.
pub fn slot_for(slot_endpoints: &Vec<u16>, endpoint: u16) -> (r: Option<usize>)
    ensures
        match r {
            Some(i) => i < slot_endpoints@.len() && slot_endpoints@[i as int] == endpoint
                && forall|k: int| 0 <= k < i ==> slot_endpoints@[k] != endpoint,
            None => !slot_endpoints@.contains(endpoint),
        },
{
    let mut i: usize = 0;
    while i < slot_endpoints.len()
        invariant
            i <= slot_endpoints@.len(),
            forall|k: int| 0 <= k < i ==> slot_endpoints@[k] != endpoint,
        decreases slot_endpoints@.len() - i,
    {
        if slot_endpoints[i] == endpoint {
            return Some(i);
        }
        i = i + 1;
    }
    None
}

/// What the Matter side shows of a bridge: whether the relay is on, and
/// whether the bridged device is reachable.
pub fn mirror_status(status: &BridgeStatus) -> (r: (bool, bool))
    ensures
        r == (status.relay_state.is_on(), status.connected),
{
    (status.relay_state.as_bool(), status.connected)
}

/// The relay state a Matter on/off write asks for.
pub fn requested_state(on: bool) -> (s: RelayState)
    ensures
        s.is_on() == on,
{
    RelayState::from_bool(on)
}

} // verus!
