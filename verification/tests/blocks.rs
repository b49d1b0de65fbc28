use rdfs::addresses_block::AddressesBlock;
use rdfs::bitmaps_block::BitmapsBlock;
use rdfs::constants::{PK_SIZE, RESERVED_BB, SIG_SIZE};
use rdfs::data_block::DataBlock;
use rdfs::rdfs_errors::RDFSError;
use rdfs::utils::bytes_to_hex;

#[test]
fn addresses_block_serialization_test() {
    let addresses = vec![[1u8; PK_SIZE], [2u8; PK_SIZE], [3u8; PK_SIZE], [4u8; PK_SIZE]];
    let signature = [5u8; SIG_SIZE];
    let block = AddressesBlock::new(addresses, signature);

    // Serialize the block
    let serialized = block.to_bytes();
    println!("Serialized AddressesBlock: {:?}", serialized.len());

    // Deserialize back to a block
    let deserialized = AddressesBlock::from_bytes(&serialized, serialized.len()).unwrap();

    // Check if the original and deserialized blocks are equal
    assert_eq!(block.addresses, deserialized.addresses);
    assert_eq!(block.signature, deserialized.signature);
}

#[test]
fn addresses_block_serialized_length() {
    let addresses = vec![[1u8; PK_SIZE], [2u8; PK_SIZE], [3u8; PK_SIZE], [4u8; PK_SIZE]];
    let block = AddressesBlock::new(addresses, [5u8; SIG_SIZE]);
    assert_eq!(block.to_bytes().len(), 200);
}

#[test]
fn addresses_block_length_errors() {
    let block = AddressesBlock::new(vec![[7u8; PK_SIZE]], [0u8; SIG_SIZE]);
    let mut serialized = block.to_bytes();
    assert_eq!(
        AddressesBlock::from_bytes(&serialized, serialized.len() + 1).unwrap_err(),
        RDFSError::InvalidAddressBlockLength
    );
    // Corrupt the declared count: the buffer no longer fits it.
    serialized[0] = 9;
    let n = serialized.len();
    assert_eq!(
        AddressesBlock::from_bytes(&serialized, n).unwrap_err(),
        RDFSError::InvalidEncodedAddressBlockLength
    );
}

#[test]
fn bitmaps_block_serialization_test() {
    let timestamp = 1633036800; // Example timestamp
    let total_blocks = 1024;
    let mut block = BitmapsBlock::new(total_blocks, timestamp);

    // Set some bits
    block.set_bit(0);
    block.set_bit(10);
    block.set_bit(20);

    // Serialize the block
    let serialized = block.to_bytes();
    println!("Serialized BitmapsBlock: {:?}", serialized.len());

    // Deserialize back to a block
    let deserialized =
        BitmapsBlock::from_bytes(&serialized, RESERVED_BB + (total_blocks / 8) as usize).unwrap();

    // Check if the original and deserialized blocks are equal
    assert_eq!(block.total_blocks, deserialized.total_blocks);
    assert_eq!(block.free_blocks, deserialized.free_blocks);
    assert_eq!(block.last_modify, deserialized.last_modify);
    assert_eq!(block.bit_field, deserialized.bit_field);
}

#[test]
fn bitmaps_free_block_accounting() {
    let mut block = BitmapsBlock::new(1024, 1633036800);
    block.set_bit(0);
    block.set_bit(10);
    block.set_bit(20);
    assert_eq!(block.free_blocks, 1021);
    // Setting an already-set bit changes nothing.
    let before = block.clone();
    block.set_bit(10);
    assert_eq!(block.free_blocks, 1021);
    assert_eq!(block.bit_field, before.bit_field);
    assert_eq!(block.last_modify, before.last_modify);
    // Clearing frees the block again; clearing twice changes nothing more.
    block.clear_bit(0);
    assert_eq!(block.free_blocks, 1022);
    block.clear_bit(0);
    assert_eq!(block.free_blocks, 1022);
    assert!(!block.get_bit(0));
    assert!(block.get_bit(10));
    // Out-of-range bits read as clear and cannot be set.
    assert!(!block.get_bit(5000));
    block.set_bit(5000);
    assert_eq!(block.free_blocks, 1022);
}

#[test]
fn bitmaps_block_length_errors() {
    let block = BitmapsBlock::new(64, 7);
    let serialized = block.to_bytes();
    assert_eq!(serialized.len(), 96 + 8);
    assert_eq!(
        BitmapsBlock::from_bytes(&serialized, 96).unwrap_err(),
        RDFSError::InvalidBitmapsBlockLength
    );
    let mut wrong = serialized.clone();
    wrong[24] = 9; // declared bit-field length no longer fills the buffer
    assert_eq!(
        BitmapsBlock::from_bytes(&wrong, wrong.len()).unwrap_err(),
        RDFSError::InvalidEncodedBitmapsBlockLength
    );
}

#[test]
fn data_block_round_trip() {
    let payload = b"spacetime payload";
    let block_size = 4096;
    let mut block = DataBlock::new(42, 1633036800, payload);
    block.add_signature([9u8; SIG_SIZE]);
    let serialized = block.to_bytes(block_size);
    assert_eq!(serialized.len(), block_size);
    let parsed = DataBlock::from_bytes(&serialized, block_size).unwrap();
    assert_eq!(parsed.block_number, 42);
    assert_eq!(parsed.timestamp, 1633036800);
    // The parsed payload is the full span up to the signature: the original
    // payload followed by the zero padding.
    assert_eq!(parsed.data.len(), block_size - 88);
    assert_eq!(&parsed.data[..payload.len()], payload);
    assert!(parsed.data[payload.len()..].iter().all(|b| *b == 0));
    assert_eq!(parsed.signature, block.signature);
}

#[test]
fn data_block_length_errors() {
    let block = DataBlock::new(1, 2, b"abc");
    let serialized = block.to_bytes(256);
    assert_eq!(
        DataBlock::from_bytes(&serialized, 512).unwrap_err(),
        RDFSError::InvalidDataBlockLength
    );
    let mut wrong = serialized.clone();
    wrong[16] = 255; // declared payload length beyond the capacity
    assert_eq!(
        DataBlock::from_bytes(&wrong, 256).unwrap_err(),
        RDFSError::InvalidEncodedDataBlockLength
    );
}

#[test]
fn hex_rendering() {
    assert_eq!(bytes_to_hex(&[0x00, 0xff, 0x1a]), "00ff1a");
    assert_eq!(bytes_to_hex(&[]), "");
    assert_eq!(bytes_to_hex(&[0x01; 32]).len(), 64);
}
