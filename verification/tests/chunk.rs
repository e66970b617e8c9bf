use rand::seq::IteratorRandom;
use rand::{thread_rng, Rng};
use valence::biome::BiomeId;
use valence::block::BlockState;
use valence::block_pos::BlockPos;
use valence::chunk::{
    compact_u64s_len, encode_compact_u64s, BlockChangePacket, Chunks, LoadedChunk, UnloadedChunk,
};
use valence::chunk_pos::ChunkPos;
use valence::paletted_container::{log2_ceil_usize, ElementBits, PalettedContainer};

#[test]
fn compact_len_rounds_up_per_word() {
    assert_eq!(compact_u64s_len(4096, 15), 1024);
    assert_eq!(compact_u64s_len(100, 6), 10);
    assert_eq!(compact_u64s_len(101, 6), 11);
    assert_eq!(compact_u64s_len(7, 64), 7);
    assert_eq!(compact_u64s_len(7, 33), 7);
    assert_eq!(compact_u64s_len(0, 5), 0);
}

#[test]
fn compact_values_fill_words_from_the_low_bits() {
    let mut w = Vec::new();
    encode_compact_u64s(&mut w, &[1, 2, 3], 4);
    assert_eq!(w, vec![0, 0, 0, 0, 0, 0, 0x03, 0x21]);

    let mut w = vec![9];
    encode_compact_u64s(&mut w, &[u64::MAX, 5], 64);
    assert_eq!(w, vec![9, 0xff, 0xff, 0xff, 0xff, 0xff, 0xff, 0xff, 0xff, 0, 0, 0, 0, 0, 0, 0, 5]);

    let mut w = Vec::new();
    encode_compact_u64s(&mut w, &[], 7);
    assert!(w.is_empty());

    // Two values of 32 bits fill a word exactly; a third starts another.
    let mut w = Vec::new();
    encode_compact_u64s(&mut w, &[0x1111_1111, 0x2222_2222, 7], 32);
    assert_eq!(
        w,
        vec![0x22, 0x22, 0x22, 0x22, 0x11, 0x11, 0x11, 0x11, 0, 0, 0, 0, 0, 0, 0, 7]
    );
}

#[test]
fn log2_ceil_is_least_power_at_least() {
    let cases = [(0, 0), (1, 0), (2, 1), (3, 2), (4, 2), (16, 4), (17, 5), (usize::MAX, 64)];
    for (n, k) in cases {
        assert_eq!(log2_ceil_usize(n), k);
    }
}

const BLOCKS: ElementBits = ElementBits { direct: 15, max_indirect: 8, min_indirect: 4, value_mask: 0xffff };
const BIOMES: ElementBits =
    ElementBits { direct: 6, max_indirect: 4, min_indirect: 0, value_mask: 0xffff_ffff };

#[test]
fn single_value_encoding() {
    let mut p = PalettedContainer::<4, 2>::new();
    p.fill(300);
    let mut w = Vec::new();
    p.encode(&mut w, BLOCKS);
    assert_eq!(w, vec![0, 0xac, 0x02, 0]);
}

#[test]
fn palette_encoding() {
    let mut p = PalettedContainer::<4, 2>::new();
    p.set(1, 5);
    let mut w = Vec::new();
    p.encode(&mut w, BLOCKS);
    assert_eq!(w, vec![4, 2, 0, 5, 1, 0, 0, 0, 0, 0, 0, 0, 0x10]);

    let mut w = Vec::new();
    p.encode(&mut w, BIOMES);
    // One bit per index: element 1 points at palette entry 1.
    assert_eq!(w, vec![1, 2, 0, 5, 1, 0, 0, 0, 0, 0, 0, 0, 0x02]);
}

#[test]
fn direct_encoding() {
    let mut p = PalettedContainer::<20, 10>::new();
    for i in 0..20 {
        p.set(i, i as u32 + 1);
    }
    let mut w = Vec::new();
    p.encode(&mut w, BIOMES);
    let mut words = [0u64; 2];
    for i in 0..20 {
        words[i / 10] += (i as u64 + 1) << (6 * (i % 10));
    }
    let mut expected = vec![6, 2];
    expected.extend_from_slice(&words[0].to_be_bytes());
    expected.extend_from_slice(&words[1].to_be_bytes());
    assert_eq!(w, expected);
}

fn stone() -> BlockState {
    BlockState::new(1, false)
}

#[test]
fn unloaded_chunk_blocks_and_biomes() {
    let mut c = UnloadedChunk::new(32);
    assert_eq!(c.height(), 32);
    assert_eq!(c.block_state(3, 20, 9), BlockState::air_block());
    assert_eq!(c.set_block_state(3, 20, 9, stone()), BlockState::air_block());
    assert_eq!(c.block_state(3, 20, 9), stone());
    assert_eq!(c.block_state(3, 4, 9), BlockState::air_block());
    assert_eq!(c.set_biome(1, 7, 2, BiomeId(5)), BiomeId(0));
    assert_eq!(c.biome(1, 7, 2), BiomeId(5));
    c.optimize();
    assert_eq!(c.block_state(3, 20, 9), stone());
    c.resize(16);
    assert_eq!(c.height(), 16);
    c.resize(48);
    assert_eq!(c.block_state(3, 20, 9), BlockState::air_block());
    c.fill_block_states(stone());
    assert_eq!(c.block_state(15, 47, 15), stone());
    c.fill_biomes(BiomeId(2));
    assert_eq!(c.biome(3, 11, 3), BiomeId(2));
    assert_eq!(UnloadedChunk::default().height(), 0);
}

#[test]
fn loaded_chunk_reports_block_changes() {
    let mut c = LoadedChunk::new(UnloadedChunk::new(0), 2, ());
    assert!(c.created_this_tick());
    assert_eq!(c.height(), 32);
    assert!(c.block_change_packets(ChunkPos::new(1, -2), -16).is_empty());

    // One change in the upper section.
    c.set_block_state(3, 17, 5, stone());
    // Setting a block to what it is changes nothing.
    c.set_block_state(0, 0, 0, BlockState::air_block());
    assert_eq!(
        c.block_change_packets(ChunkPos::new(1, -2), -16),
        vec![BlockChangePacket::Single { location: BlockPos { x: 19, y: 1, z: -27 }, block_id: 1 }]
    );

    // Two changes in the lower section.
    c.set_block_state(1, 2, 3, stone());
    c.set_block_state(0, 0, 4, BlockState::new(7, false));
    let packets = c.block_change_packets(ChunkPos::new(1, -2), -16);
    let position = (1i64 << 42) | ((-2i64 & 0x3fffff) << 20) | ((-1i64) & 0xfffff);
    assert_eq!(
        packets[0],
        BlockChangePacket::Section {
            position,
            blocks: vec![(7 << 12) | (4 << 4), (1 << 12) | (1 << 8) | (3 << 4) | 2],
        }
    );
    assert_eq!(packets.len(), 2);

    c.update();
    assert!(!c.created_this_tick());
    assert!(c.block_change_packets(ChunkPos::new(1, -2), -16).is_empty());

    c.fill_block_states(stone());
    match &c.block_change_packets(ChunkPos::new(0, 0), 0)[0] {
        BlockChangePacket::Section { blocks, .. } => assert_eq!(blocks.len(), 4095),
        other => panic!("unexpected {other:?}"),
    }
}

#[test]
fn chunk_data_of_fresh_chunk() {
    let c = LoadedChunk::new(UnloadedChunk::new(32), 2, ());
    assert_eq!(c.chunk_data(BLOCKS, BIOMES), vec![0, 0, 0, 0, 0, 0, 0, 0, 0, 0, 0, 0, 0, 0, 0, 0]);
    let mut c = c;
    c.fill_block_states(stone());
    let data = c.chunk_data(BLOCKS, BIOMES);
    assert_eq!(&data[..8], &[0x10, 0x00, 0, 1, 0, 0, 0, 0]);
}

#[test]
fn chunks_in_world_space() {
    let mut chunks: Chunks<u8> = Chunks::new(64, -32);
    assert!(chunks.is_empty());
    chunks.insert(ChunkPos::new(-1, 0), UnloadedChunk::new(16), 9);
    assert_eq!(chunks.len(), 1);
    assert_eq!(chunks.height(), 64);
    assert_eq!(chunks.min_y(), -32);
    assert_eq!(chunks.get(ChunkPos::new(-1, 0)).unwrap().height(), 64);
    let pos = BlockPos::new(-3, -30, 7);
    assert_eq!(chunks.block_state(pos), Some(BlockState::air_block()));
    assert!(chunks.set_block_state(pos, stone()));
    assert_eq!(chunks.block_state(pos), Some(stone()));
    assert!(!chunks.set_block_state(BlockPos::new(-3, 32, 7), stone()));
    assert!(!chunks.set_block_state(BlockPos::new(3, 0, 7), stone()));
    assert_eq!(chunks.block_state(BlockPos::new(-3, -33, 7)), None);
    assert_eq!(chunks.get(ChunkPos::new(-1, 0)).unwrap().block_state(13, 2, 7), stone());
    chunks.update();
    assert!(!chunks.get(ChunkPos::new(-1, 0)).unwrap().created_this_tick());
    let (unloaded, state) = chunks.remove(ChunkPos::new(-1, 0)).unwrap();
    assert_eq!(state, 9);
    assert_eq!(unloaded.block_state(13, 2, 7), stone());
    assert!(chunks.remove(ChunkPos::new(-1, 0)).is_none());
    chunks.insert(ChunkPos::new(0, 0), UnloadedChunk::new(0), 1);
    chunks.clear();
    assert!(chunks.is_empty());
}

#[test]
fn fill_matches_setting_every_block() {
    let mut a = LoadedChunk::new(UnloadedChunk::new(32), 2, ());
    let mut b = LoadedChunk::new(UnloadedChunk::new(32), 2, ());
    for c in [&mut a, &mut b] {
        c.set_block_state(4, 3, 2, stone());
        c.set_block_state(9, 30, 1, BlockState::new(8, false));
        c.update();
        c.set_block_state(0, 0, 0, BlockState::new(3, false));
    }
    a.fill_block_states(stone());
    for y in 0..32 {
        for z in 0..16 {
            for x in 0..16 {
                b.set_block_state(x, y, z, stone());
            }
        }
    }
    for (x, y, z) in [(0, 0, 0), (4, 3, 2), (9, 30, 1), (15, 31, 15)] {
        assert_eq!(a.block_state(x, y, z), stone());
        assert_eq!(b.block_state(x, y, z), stone());
    }
    let pos = ChunkPos::new(3, 4);
    assert_eq!(a.block_change_packets(pos, 0), b.block_change_packets(pos, 0));
    b.optimize();
    assert_eq!(a.chunk_data(BLOCKS, BIOMES), b.chunk_data(BLOCKS, BIOMES));
}

fn set_then_get<C: valence::chunk::Chunk>(c: &mut C, b: BlockState) -> (BlockState, BlockState) {
    let replaced = c.set_block_state(3, 17, 5, b);
    (replaced, c.block_state(3, 17, 5))
}

#[test]
fn chunk_trait_on_both_chunk_kinds() {
    let stone = BlockState::new(1, false);
    let mut u = UnloadedChunk::new(32);
    assert_eq!(valence::chunk::Chunk::height(&u), 32);
    assert_eq!(set_then_get(&mut u, stone), (BlockState::air_block(), stone));
    valence::chunk::Chunk::fill_biomes(&mut u, BiomeId(2));
    assert_eq!(valence::chunk::Chunk::biome(&u, 1, 5, 1), BiomeId(2));
    valence::chunk::Chunk::optimize(&mut u);
    assert_eq!(valence::chunk::Chunk::block_state(&u, 3, 17, 5), stone);

    let mut l = LoadedChunk::new(UnloadedChunk::new(16), 2, ());
    assert_eq!(set_then_get(&mut l, stone), (BlockState::air_block(), stone));
    valence::chunk::Chunk::fill_block_states(&mut l, stone);
    assert_eq!(valence::chunk::Chunk::block_state(&l, 15, 31, 15), stone);
    assert_eq!(valence::chunk::Chunk::set_biome(&mut l, 0, 7, 0, BiomeId(4)), BiomeId(0));
}

#[test]
fn chunks_positions_and_retain() {
    let mut chunks: Chunks<u8> = Chunks::new(32, -16);
    for (i, (x, z)) in [(0, 0), (-1, 2), (5, -7)].into_iter().enumerate() {
        chunks.insert(ChunkPos::new(x, z), UnloadedChunk::new(16), i as u8);
    }
    let mut ps: Vec<(i32, i32)> = chunks.positions().iter().map(|p| (p.x, p.z)).collect();
    ps.sort();
    assert_eq!(ps, vec![(-1, 2), (0, 0), (5, -7)]);
    chunks.retain(|p, c| p.x >= 0 && c.state != 2);
    let ps: Vec<(i32, i32)> = chunks.positions().iter().map(|p| (p.x, p.z)).collect();
    assert_eq!(ps, vec![(0, 0)]);
}

fn rand_block_state(rng: &mut impl Rng) -> BlockState {
    BlockState::new(rng.gen_range(1..20000), false)
}

#[test]
fn random_block_assignments() {
    let mut rng = thread_rng();

    let height = 512;

    let mut loaded = LoadedChunk::new(UnloadedChunk::default(), height / 16, ());
    let mut unloaded = UnloadedChunk::new(height);
    let mut model = vec![BlockState::air_block(); 16 * height * 16];
    let airs = [BlockState::air_block(), BlockState::new(12817, true), BlockState::new(12816, true)];

    for i in 0..10_000 {
        let state = if i % 250 == 0 {
            airs.into_iter().choose(&mut rng).unwrap()
        } else {
            rand_block_state(&mut rng)
        };

        let x = rng.gen_range(0..16);
        let y = rng.gen_range(0..height);
        let z = rng.gen_range(0..16);

        loaded.set_block_state(x, y, z, state);
        unloaded.set_block_state(x, y, z, state);
        model[(y * 16 + z) * 16 + x] = state;
    }

    // The counters that the original checked here are the sections' type
    // invariant, which the verifier proves; what is left to run is that the
    // chunks read back what was written.
    let check = |loaded: &LoadedChunk<()>, unloaded: &UnloadedChunk, ml: &[BlockState], mu: &[BlockState]| {
        for y in 0..height {
            for z in 0..16 {
                for x in 0..16 {
                    let i = (y * 16 + z) * 16 + x;
                    assert_eq!(loaded.block_state(x, y, z), ml[i]);
                    assert_eq!(unloaded.block_state(x, y, z), mu[i]);
                }
            }
        }
    };
    check(&loaded, &unloaded, &model, &model);

    loaded.optimize();
    unloaded.optimize();
    check(&loaded, &unloaded, &model, &model);

    let fill_loaded = rand_block_state(&mut rng);
    let fill_unloaded = rand_block_state(&mut rng);
    loaded.fill_block_states(fill_loaded);
    unloaded.fill_block_states(fill_unloaded);
    check(
        &loaded,
        &unloaded,
        &vec![fill_loaded; 16 * height * 16],
        &vec![fill_unloaded; 16 * height * 16],
    );
}

#[test]
fn resizing_keeps_what_fits_and_fills_with_air() {
    let mut c = UnloadedChunk::new(32);
    c.set_block_state(1, 5, 2, BlockState::new(7, false));
    c.set_block_state(1, 25, 2, BlockState::new(8, false));
    c.set_biome(0, 1, 0, BiomeId(3));
    c.resize(64);
    assert_eq!(c.block_state(1, 5, 2), BlockState::new(7, false));
    assert_eq!(c.block_state(1, 25, 2), BlockState::new(8, false));
    assert_eq!(c.block_state(1, 40, 2), BlockState::air_block());
    assert_eq!(c.biome(0, 1, 0), BiomeId(3));
    assert_eq!(c.biome(0, 12, 0), BiomeId(0));
    c.resize(16);
    assert_eq!(c.height(), 16);
    assert_eq!(c.block_state(1, 5, 2), BlockState::new(7, false));
}
