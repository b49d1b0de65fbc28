use rdfs::rdfs_errors::RDFSError;
use rdfs::super_block::{FileSystemType, SuperBlock};
use rdfs::utils::bytes_to_hex;

#[test]
fn new_super_block_test() {
    let owner = [255; 32];
    let program_id = [1; 32];
    let storage = 34359738368;
    let redundancy = 300;
    let nodes = 50;
    let block_size = 4096; // 4KB block size

    // instead of returning result, this fields will be checked on chain.
    assert!(
        storage >= nodes * 1048576,
        "minimum storage with respect to number of nodes should be >= nodes * 1MB"
    );
    assert!(redundancy >= 100, "Redundancy should be >= 100.");
    assert!(nodes >= 1, "minimum nodes to operate is 1.");
    assert!(
        block_size >= 2048,
        "minimum block size is 2KB but it will be not efficient ~90% of storage"
    );

    let block = SuperBlock::new(
        FileSystemType::Shared,
        owner,
        program_id,
        storage,
        redundancy,
        nodes,
        block_size,
    );
    println!("magic: {:?}", block.magic);
    println!("program_id: 0x{}", bytes_to_hex(&block.program_id));
    println!("storage: {:?}", block.storage);
    println!("redundancy: {:?}", block.redundancy);
    println!("nodes: {:?}", block.nodes);
    println!("block_size: {:?}", block.block_size);
    println!("total_blocks: {:?}", block.total_blocks);
    println!("client_block_size: {:?}", block.client_block_size);
    println!("node_storage: {:?}", block.node_storage);
    println!("nodes_address_pointer: {:?}", block.nodes_address_pointer);
    println!("bitmaps_pointer: {:?}", block.bitmaps_pointer);
    println!("data_pointer: {:?}", block.data_pointer);
    println!("inode_pointer: {:?}", block.inode_pointer);
    println!("----------------------------");
    println!("nodes_address size: {:?}", block.nodes_address_size);
    println!("bitmaps size: {:?}", block.bitmaps_size);
    println!("max content pointers: {:?}", block.max_content_pointers);
    println!("max linked content pointers: {:?}", block.max_linked_content_pointers);
    println!("----------------------------");
    println!(
        "System Storage Efficiency: {:.2?}%",
        ((block.block_size - 88) * block.total_blocks * 100) as f64 / block.node_storage as f64
    );

    match block.magic {
        FileSystemType::Shared => {
            assert_eq!(
                block.node_storage,
                256 + block.nodes_address_size + block.bitmaps_size + block.total_blocks * block.block_size,
                "node storage should be equal to super block + address block + bitmaps metadata + (total blocks / 8) + (total blocks * block size)"
            );
        }
        FileSystemType::Private => {
            assert_eq!(
                block.node_storage,
                256 + block.nodes_address_size + block.total_blocks * block.block_size,
                "node storage should be equal to super block + address block + (total blocks * block size)"
            );
        }
    }
}

#[test]
fn serialize_test() {
    let owner = [255; 32];
    let program_id = [1; 32];
    let storage = 34359738368;
    let redundancy = 300;
    let nodes = 50;
    let block_size = 4096;

    // instead of returning result, this fields will be checked on chain.
    assert!(
        storage >= nodes * 1048576,
        "minimum storage with respect to number of nodes should be >= nodes * 1MB"
    );
    assert!(redundancy >= 100, "Redundancy should be >= 100.");
    assert!(nodes >= 1, "minimum nodes to operate is 1.");
    assert!(
        block_size >= 2048,
        "minimum block size is 2KB but it will be not efficient ~90% of storage"
    );

    let block = SuperBlock::new(
        FileSystemType::Private,
        owner,
        program_id,
        storage,
        redundancy,
        nodes,
        block_size,
    );

    let ser = block.to_bytes();
    println!("length: {:?}", ser.len());

    let block2 = SuperBlock::from_bytes(&ser).unwrap();
    assert_eq!(block.magic, block2.magic, "Magic number should match");
    assert_eq!(block.owner, block2.owner, "Owner should match");
    assert_eq!(block.program_id, block2.program_id, "Program ID should match");
    assert_eq!(block.storage, block2.storage, "Storage size should match");
    assert_eq!(block.redundancy, block2.redundancy, "Redundancy should match");
    assert_eq!(block.nodes, block2.nodes, "Number of nodes should match");
    assert_eq!(block.block_size, block2.block_size, "Block size should match");
    assert_eq!(block.total_blocks, block2.total_blocks, "Total blocks should match");
    assert_eq!(block.client_block_size, block2.client_block_size, "Client block size should match");
    assert_eq!(block.node_storage, block2.node_storage, "Node storage should match");
    assert_eq!(
        block.nodes_address_pointer, block2.nodes_address_pointer,
        "Nodes address pointer should match"
    );
    assert_eq!(block.bitmaps_pointer, block2.bitmaps_pointer, "Bitmaps pointer should match");
    assert_eq!(block.data_pointer, block2.data_pointer, "Data pointer should match");
    assert_eq!(block.inode_pointer, block2.inode_pointer, "Inode pointer should match");
    assert_eq!(block.nodes_address_size, block2.nodes_address_size, "Nodes address size should match");
    assert_eq!(block.bitmaps_size, block2.bitmaps_size, "Bitmaps size should match");
    assert_eq!(
        block.max_content_pointers, block2.max_content_pointers,
        "Max content pointers should match"
    );
    assert_eq!(
        block.max_linked_content_pointers, block2.max_linked_content_pointers,
        "Max linked content pointers should match"
    );
    assert_eq!(block.signature, block2.signature, "Signature should match");
}

#[test]
fn shared_geometry_exact_values() {
    let block = SuperBlock::new(
        FileSystemType::Shared,
        [255; 32],
        [1; 32],
        34359738368,
        300,
        50,
        4096,
    );
    assert!(block.total_blocks > 0 && block.total_blocks % 8 == 0);
    assert_eq!(block.total_blocks, 503304);
    assert_eq!(block.node_storage, 2061598121);
    assert_eq!(block.client_block_size, (4096 - 92) * 50 * 100 / 300);
    assert_eq!(block.client_block_size, 66733);
    assert_eq!(block.nodes_address_pointer, 256);
    assert_eq!(block.nodes_address_size, 72 + 32 * 50);
    assert_eq!(block.bitmaps_pointer, 256 + block.nodes_address_size);
    assert_eq!(block.bitmaps_size, 96 + block.total_blocks / 8);
    assert_eq!(block.data_pointer, block.bitmaps_pointer + block.bitmaps_size);
    assert_eq!(
        block.inode_pointer,
        block.data_pointer + 4096 * (block.total_blocks - 1)
    );
    assert_eq!(block.max_content_pointers, (4096 - 1136) / 16);
    assert_eq!(block.max_linked_content_pointers, (4096 - 80) / 16);
}

#[test]
fn private_geometry_exact_values() {
    let block = SuperBlock::new(
        FileSystemType::Private,
        [255; 32],
        [1; 32],
        34359738368,
        300,
        50,
        4096,
    );
    assert_eq!(block.bitmaps_pointer, 0);
    assert_eq!(block.inode_pointer, 0);
    assert_eq!(block.client_block_size, 0);
    assert_eq!(block.bitmaps_size, 0);
    assert_eq!(block.max_content_pointers, 0);
    assert_eq!(
        block.node_storage,
        256 + 72 + 32 * 50 + block.total_blocks * 4096
    );
    assert_eq!(block.total_blocks, 503317);
    assert_eq!(block.node_storage, 2061588360);
    assert_eq!(block.data_pointer, 256 + 72 + 32 * 50);
}

#[test]
fn magic_word_errors() {
    let shared = FileSystemType::Shared.to_bytes();
    assert_eq!(&shared, b"RDFS-SHR");
    let private = FileSystemType::Private.to_bytes();
    assert_eq!(&private, b"RDFS-PRV");
    assert_eq!(FileSystemType::from_bytes(&shared).unwrap(), FileSystemType::Shared);
    assert_eq!(FileSystemType::from_bytes(&private).unwrap(), FileSystemType::Private);
    assert_eq!(
        FileSystemType::from_bytes(b"RDFS-XXX").unwrap_err(),
        RDFSError::InvalidMagicWord
    );

    let block = SuperBlock::new(
        FileSystemType::Shared,
        [0; 32],
        [0; 32],
        34359738368,
        300,
        50,
        4096,
    );
    let mut ser = block.to_bytes();
    assert_eq!(
        SuperBlock::from_bytes(&ser[..200]).unwrap_err(),
        RDFSError::InvalidSuperBlockLength
    );
    ser[0] = b'X';
    assert_eq!(
        SuperBlock::from_bytes(&ser).unwrap_err(),
        RDFSError::InvalidMagicWord
    );
}
