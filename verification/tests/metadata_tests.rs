use llvm_ir::error::DecodeError;
use llvm_ir::module::Module;
use llvm_ir::raw::{RawMetadataNode, RawModule, RawNamedMetadata};

fn graph_with(nodes: Vec<Vec<usize>>, entries: Vec<(&str, Vec<usize>)>) -> RawModule {
    RawModule {
        name: "m".to_string(),
        source_file_name: String::new(),
        data_layout: String::new(),
        target_triple: None,
        inline_assembly: String::new(),
        defined_functions: Vec::new(),
        declared_functions: Vec::new(),
        globals: Vec::new(),
        aliases: Vec::new(),
        type_defs: Vec::new(),
        metadata_nodes: nodes
            .into_iter()
            .map(|operands| RawMetadataNode { operands })
            .collect(),
        named_metadatas: entries
            .into_iter()
            .map(|(name, operands)| RawNamedMetadata { name: name.to_string(), operands })
            .collect(),
    }
}

#[test]
fn metadata_round_trip_two_nodes() {
    // The entry lists source node 1 before source node 0, so IDs follow
    // discovery order, not declaration order; each ID leads back to the
    // decoded content of the node originally referenced.
    let g = graph_with(vec![vec![1], vec![]], vec![("info", vec![1, 0])]);
    let m = Module::from_graph(&g).unwrap();
    assert_eq!(m.named_metadatas.len(), 1);
    assert_eq!(m.named_metadatas[0].name, "info");
    assert_eq!(m.named_metadatas[0].node_ids.len(), 2);
    assert_eq!(m.named_metadatas[0].node_ids, vec![0, 1]);
    // ID 0 is source node 1 (no operands); ID 1 is source node 0, whose one
    // operand is source node 1, i.e. ID 0.
    assert_eq!(m.metadata_nodes[0].operands, Vec::<usize>::new());
    assert_eq!(m.metadata_nodes[1].operands, vec![0]);
}

#[test]
fn metadata_cycle_terminates() {
    // Node 0 and node 1 reference each other; registration before operand
    // decoding breaks the cycle.
    let g = graph_with(vec![vec![1], vec![0]], vec![("cycle", vec![0])]);
    let m = Module::from_graph(&g).unwrap();
    assert_eq!(m.named_metadatas[0].node_ids, vec![0]);
    assert_eq!(m.metadata_nodes[0].operands, vec![1]);
    assert_eq!(m.metadata_nodes[1].operands, vec![0]);
}

#[test]
fn metadata_self_cycle() {
    let g = graph_with(vec![vec![0]], vec![("selfref", vec![0])]);
    let m = Module::from_graph(&g).unwrap();
    assert_eq!(m.metadata_nodes[0].operands, vec![0]);
}

#[test]
fn metadata_shared_node_identified_once() {
    // Two entries list the same node: it is registered once and keeps its
    // first ID.
    let g = graph_with(vec![vec![]], vec![("a", vec![0]), ("b", vec![0, 0])]);
    let m = Module::from_graph(&g).unwrap();
    assert_eq!(m.metadata_nodes.len(), 1);
    assert_eq!(m.named_metadatas[0].node_ids, vec![0]);
    assert_eq!(m.named_metadatas[1].node_ids, vec![0, 0]);
}

#[test]
fn unreferenced_metadata_node_not_decoded() {
    // A node no entry reaches is never registered: the final table only
    // holds nodes the indexer itself identified.
    let g = graph_with(vec![vec![], vec![]], vec![("only", vec![1])]);
    let m = Module::from_graph(&g).unwrap();
    assert_eq!(m.metadata_nodes.len(), 1);
    assert_eq!(m.named_metadatas[0].node_ids, vec![0]);
}

#[test]
fn dangling_named_metadata_operand_rejected() {
    let g = graph_with(vec![vec![]], vec![("bad", vec![3])]);
    assert_eq!(Module::from_graph(&g), Err(DecodeError::MetadataRefNotFound));
}

#[test]
fn dangling_node_operand_rejected() {
    let g = graph_with(vec![vec![7]], vec![("bad", vec![0])]);
    assert_eq!(Module::from_graph(&g), Err(DecodeError::MetadataRefNotFound));
}
