use rdfs::bitmaps_block::BitmapsBlock;
use rdfs::file_system::RDFS;
use rdfs::inode_block::FileContent;
use rdfs::rdfs_errors::RDFSError;
use rdfs::super_block::{FileSystemType, SuperBlock};

fn shared_drive() -> (RDFS, Vec<rdfs::file_system::RegionWrite>) {
    RDFS::new(
        String::from("data"),
        FileSystemType::Shared,
        [0xFF; 32],
        [0x01; 32],
        34359738368,
        300,
        50,
        4096,
    )
    .unwrap()
}

fn private_drive() -> (RDFS, Vec<rdfs::file_system::RegionWrite>) {
    RDFS::new(
        String::from("data"),
        FileSystemType::Private,
        [0xFF; 32],
        [0x01; 32],
        34359738368,
        300,
        50,
        4096,
    )
    .unwrap()
}

#[test]
fn create_shared_drive_layout() {
    let (fs, writes) = shared_drive();
    let sb = &fs.system;
    assert!(sb.total_blocks > 0 && sb.total_blocks % 8 == 0);
    assert_eq!(sb.client_block_size, 66733);
    assert_eq!(sb.inode_pointer, sb.data_pointer + 4096 * (sb.total_blocks - 1));
    // The shard file is named after the program id.
    let hex: String = std::iter::repeat("01").take(32).collect();
    assert_eq!(fs.path, format!("data/{hex}.RDFS"));
    // Four region writes initialize the shard: super block, addresses,
    // bitmap, root inode.
    assert_eq!(writes.len(), 4);
    assert_eq!(writes[0].offset, 0);
    assert_eq!(writes[0].bytes.len(), 256);
    assert_eq!(writes[1].offset, sb.nodes_address_pointer);
    assert_eq!(writes[1].bytes.len(), sb.nodes_address_size as usize);
    assert_eq!(writes[2].offset, sb.bitmaps_pointer);
    assert_eq!(writes[2].bytes.len(), sb.bitmaps_size as usize);
    assert_eq!(writes[3].offset, sb.inode_pointer);
    assert_eq!(writes[3].bytes.len(), sb.block_size as usize);
    // Every write lies inside the shard file.
    for w in &writes {
        assert!(w.offset + w.bytes.len() as u64 <= sb.node_storage);
    }
    // The bitmap written at creation reserves exactly the root inode block.
    let bm = BitmapsBlock::from_bytes(&writes[2].bytes, sb.bitmaps_size as usize).unwrap();
    assert_eq!(bm.total_blocks, sb.total_blocks);
    assert_eq!(bm.free_blocks, sb.total_blocks - 1);
    assert!(bm.get_bit((sb.total_blocks - 1) as usize));
    assert!(!bm.get_bit(0));
}

#[test]
fn mount_drive_reads_back_the_super_block() {
    let (fs, writes) = shared_drive();
    let mounted = RDFS::mount_drive(fs.path.clone(), &writes[0].bytes).unwrap();
    let a = &fs.system;
    let b = &mounted.system;
    assert_eq!(b.magic, FileSystemType::Shared);
    assert_eq!(a.owner, b.owner);
    assert_eq!(a.program_id, b.program_id);
    assert_eq!(a.storage, b.storage);
    assert_eq!(a.redundancy, b.redundancy);
    assert_eq!(a.nodes, b.nodes);
    assert_eq!(a.block_size, b.block_size);
    assert_eq!(a.total_blocks, b.total_blocks);
    assert_eq!(a.client_block_size, b.client_block_size);
    assert_eq!(a.node_storage, b.node_storage);
    assert_eq!(a.data_pointer, b.data_pointer);
    assert_eq!(a.inode_pointer, b.inode_pointer);
    assert_eq!(a.signature, b.signature);
    assert_eq!(mounted.read_super_block(), writes[0].bytes);
    mounted.unmount_drive().unwrap();
}

#[test]
fn private_drive_has_no_bitmaps() {
    let (fs, writes) = private_drive();
    let sb = &fs.system;
    assert_eq!(sb.bitmaps_pointer, 0);
    assert_eq!(sb.inode_pointer, 0);
    assert_eq!(sb.client_block_size, 0);
    assert_eq!(sb.node_storage, 256 + 72 + 32 * 50 + sb.total_blocks * 4096);
    assert_eq!(writes.len(), 2);
    assert_eq!(fs.read_bitmaps().unwrap_err(), RDFSError::NoBitmapsPrivateRDFS);
}

#[test]
fn block_pointer_discipline() {
    let (fs, _) = shared_drive();
    let dp = fs.system.data_pointer;
    let bs = fs.system.block_size;
    // Below the data region.
    assert_eq!(fs.read_block(dp - 1).unwrap_err(), RDFSError::PointerOutOfRange);
    // Misaligned inside the data region.
    assert_eq!(fs.read_block(dp + 1).unwrap_err(), RDFSError::InvalidPointerAlignment);
    assert_eq!(fs.read_block(dp + bs / 2).unwrap_err(), RDFSError::InvalidPointerAlignment);
    // Aligned pointers give exactly one block's range.
    assert_eq!(fs.read_block(dp).unwrap(), (dp, dp + bs));
    assert_eq!(fs.read_block(dp + 7 * bs).unwrap(), (dp + 7 * bs, dp + 8 * bs));
    // Writes follow the same discipline.
    let image = vec![0u8; bs as usize];
    assert_eq!(fs.write_block(dp - 1, &image).unwrap_err(), RDFSError::PointerOutOfRange);
    assert_eq!(
        fs.write_block(dp + 3, &image).unwrap_err(),
        RDFSError::InvalidPointerAlignment
    );
    assert_eq!(fs.write_block(dp + bs, &image).unwrap(), dp + bs);
}

#[test]
fn read_blocks_plans_every_extent_in_order() {
    let (fs, _) = shared_drive();
    let dp = fs.system.data_pointer;
    let bs = fs.system.block_size;
    let ranges = vec![
        FileContent { pointer: dp, blocks: 2 },
        FileContent { pointer: dp + 10 * bs, blocks: 1 },
    ];
    let plan = fs.read_blocks(&ranges);
    assert_eq!(
        plan,
        vec![
            (dp, dp + bs),
            (dp + bs, dp + 2 * bs),
            (dp + 10 * bs, dp + 11 * bs),
        ]
    );
    assert_eq!(fs.read_blocks(&vec![]), vec![]);
}

#[test]
fn nodes_addresses_region_and_validation() {
    let (fs, writes) = shared_drive();
    let (start, end) = fs.read_nodes_addresses();
    assert_eq!(start, fs.system.nodes_address_pointer);
    assert_eq!(end, start + fs.system.nodes_address_size);
    // The addresses image written at creation validates and lands at the
    // address region.
    assert_eq!(fs.write_nodes_addresses(&writes[1].bytes).unwrap(), start);
    // An image with the wrong number of keys is rejected.
    let short = rdfs::addresses_block::AddressesBlock::new(vec![[0u8; 32]; 3], [0u8; 64]);
    assert_eq!(
        fs.write_nodes_addresses(&short.to_bytes()).unwrap_err(),
        RDFSError::InvalidAddressBlockLength
    );
}

#[test]
fn bitmaps_region_and_validation() {
    let (fs, writes) = shared_drive();
    let (start, end) = fs.read_bitmaps().unwrap();
    assert_eq!(start, fs.system.bitmaps_pointer);
    assert_eq!(end, start + fs.system.bitmaps_size);
    assert_eq!(fs.write_bitmaps(&writes[2].bytes).unwrap(), start);
    // A bitmap sized for another drive is rejected.
    let foreign = BitmapsBlock::new(64, 0);
    assert_eq!(
        fs.write_bitmaps(&foreign.to_bytes()).unwrap_err(),
        RDFSError::InvalidBitmapsBlockLength
    );
    // A private drive rejects bitmap writes outright.
    let (private, _) = private_drive();
    assert_eq!(
        private.write_bitmaps(&writes[2].bytes).unwrap_err(),
        RDFSError::NoBitmapsPrivateRDFS
    );
}

#[test]
fn mount_rejects_bad_super_blocks() {
    let err = RDFS::mount_drive(String::from("p"), &[0u8; 100]).unwrap_err();
    assert_eq!(err, RDFSError::InvalidSuperBlockLength);
    let mut bytes = SuperBlock::new(
        FileSystemType::Private,
        [0; 32],
        [0; 32],
        34359738368,
        300,
        50,
        4096,
    )
    .to_bytes();
    bytes[3] = 0x99;
    assert_eq!(
        RDFS::mount_drive(String::from("p"), &bytes).unwrap_err(),
        RDFSError::InvalidMagicWord
    );
}
