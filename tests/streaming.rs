use voxel_world::table::ChunkCoord;
use voxel_world::world::{ChunkLoader, ChunkMap, RenderHandle, StreamError};

fn cc(x: i32, y: i32, z: i32) -> ChunkCoord {
    ChunkCoord { x, y, z }
}

fn l1(a: ChunkCoord, b: ChunkCoord) -> i32 {
    (a.x - b.x).abs() + (a.y - b.y).abs() + (a.z - b.z).abs()
}

/// Loads every listed coordinate and records a handle for it.
fn load_all(loader: &mut ChunkLoader, map: &mut ChunkMap, coords: &Vec<ChunkCoord>, next_id: &mut u64) {
    let heights = vec![10u8; 1024];
    for c in coords {
        let mesh = loader.load_chunk(*c, &heights, map).expect("not loaded yet");
        assert!(mesh.is_ok());
        assert!(loader.record_renderable(*c, RenderHandle { id: *next_id }));
        *next_id += 1;
    }
}

#[test]
fn initial_cube_is_requested() {
    let loader = ChunkLoader::new(cc(0, 0, 0));
    let to_load = loader.get_chunks_to_load(cc(0, 0, 0), 1);
    assert_eq!(to_load.len(), 27);
    assert!(to_load.contains(&cc(1, 1, 1)));
    assert!(to_load.contains(&cc(-1, -1, -1)));
    assert!(!to_load.contains(&cc(2, 0, 0)));
}

#[test]
fn same_chunk_move_is_noop() {
    let mut loader = ChunkLoader::new(cc(3, 0, 0));
    let mut map = ChunkMap::new();
    let update = loader.update_player_position(cc(3, 0, 0), 2, &mut map);
    assert!(update.unloaded.is_empty());
    assert!(update.to_load.is_empty());
    assert_eq!(loader.loaded_count(), 0);
}

#[test]
fn move_one_chunk_unloads_octahedron_outside_and_loads_cube() {
    let mut loader = ChunkLoader::new(cc(0, 0, 0));
    let mut map = ChunkMap::new();
    let mut next_id = 1u64;
    let first = loader.get_chunks_to_load(cc(0, 0, 0), 1);
    load_all(&mut loader, &mut map, &first, &mut next_id);
    assert_eq!(loader.loaded_count(), 27);

    let update = loader.update_player_position(cc(1, 0, 0), 1, &mut map);
    assert_eq!(loader.player_position, cc(1, 0, 0));
    // unloaded: the loaded chunks beyond Manhattan distance 1 of the old centre
    assert_eq!(update.unloaded.len(), 20);
    for (c, h) in &update.unloaded {
        assert!(l1(*c, cc(0, 0, 0)) > 1);
        assert!(h.is_some());
        assert!(!loader.is_loaded(*c));
        assert!(map.get(*c).is_none());
    }
    assert_eq!(loader.loaded_count(), 7);
    // loaded: the cube around the new centre minus what stayed
    assert_eq!(update.to_load.len(), 21);
    assert!(update.to_load.contains(&cc(2, 1, 1)));
    assert!(!update.to_load.contains(&cc(1, 0, 0)));
    assert!(!update.to_load.contains(&cc(-1, 0, 0)));
    assert_eq!(l1(cc(2, 1, 1), cc(1, 0, 0)), 3);

    load_all(&mut loader, &mut map, &update.to_load, &mut next_id);
    assert!(loader.is_loaded(cc(2, 1, 1)));
    assert!(loader.is_loaded(cc(-1, 0, 0)));

    // the corner just loaded is dropped by the very next move
    let next = loader.update_player_position(cc(2, 0, 0), 1, &mut map);
    assert!(next.unloaded.iter().any(|(c, _)| *c == cc(2, 1, 1)));
    assert!(!loader.is_loaded(cc(2, 1, 1)));
}

#[test]
fn unload_without_renderable_is_reported_and_cleaned() {
    let mut loader = ChunkLoader::new(cc(0, 0, 0));
    let mut map = ChunkMap::new();
    let heights = vec![10u8; 1024];
    assert!(loader.load_chunk(cc(4, 0, 0), &heights, &mut map).is_some());
    assert!(map.get(cc(4, 0, 0)).is_some());
    assert_eq!(loader.renderable_of(cc(4, 0, 0)), None);
    assert_eq!(
        loader.unload_chunk(cc(4, 0, 0), &mut map),
        Err(StreamError::MissingRenderable(cc(4, 0, 0)))
    );
    assert!(!loader.is_loaded(cc(4, 0, 0)));
    assert!(map.get(cc(4, 0, 0)).is_none());
}

#[test]
fn unload_returns_recorded_handle() {
    let mut loader = ChunkLoader::new(cc(0, 0, 0));
    let mut map = ChunkMap::new();
    let heights = vec![10u8; 1024];
    assert!(loader.load_chunk(cc(0, 1, 0), &heights, &mut map).is_some());
    assert!(loader.record_renderable(cc(0, 1, 0), RenderHandle { id: 77 }));
    assert_eq!(loader.renderable_of(cc(0, 1, 0)), Some(RenderHandle { id: 77 }));
    assert_eq!(loader.unload_chunk(cc(0, 1, 0), &mut map), Ok(RenderHandle { id: 77 }));
    assert_eq!(loader.renderable_of(cc(0, 1, 0)), None);
}

#[test]
fn duplicate_load_is_noop() {
    let mut loader = ChunkLoader::new(cc(0, 0, 0));
    let mut map = ChunkMap::new();
    let heights = vec![10u8; 1024];
    assert!(loader.load_chunk(cc(1, 2, 3), &heights, &mut map).is_some());
    assert!(loader.record_renderable(cc(1, 2, 3), RenderHandle { id: 5 }));
    assert!(loader.load_chunk(cc(1, 2, 3), &heights, &mut map).is_none());
    assert_eq!(loader.loaded_count(), 1);
    assert_eq!(loader.renderable_of(cc(1, 2, 3)), Some(RenderHandle { id: 5 }));
}

#[test]
fn record_for_unloaded_coordinate_is_refused() {
    let mut loader = ChunkLoader::new(cc(0, 0, 0));
    assert!(!loader.record_renderable(cc(9, 9, 9), RenderHandle { id: 1 }));
    assert_eq!(loader.renderable_of(cc(9, 9, 9)), None);
}

#[test]
fn loaded_chunk_grid_is_generated_and_meshed() {
    let mut loader = ChunkLoader::new(cc(0, 0, 0));
    let mut map = ChunkMap::new();
    let heights = vec![12u8; 1024];
    let mesh = loader.load_chunk(cc(0, 0, 0), &heights, &mut map).unwrap().unwrap();
    assert_eq!(mesh.len(), 2048 + 128);
    let grid = map.get(cc(0, 0, 0)).unwrap();
    assert_eq!(grid.get(voxel_world::chunk::LocalPos { x: 1, y: 12, z: 1 }).map(|v| v.is_solid), Some(true));
}

#[test]
fn failed_mesh_leaves_chunk_loaded_without_renderable() {
    let mut loader = ChunkLoader::new(cc(0, 0, 0));
    let mut map = ChunkMap::new();
    let heights = vec![29u8; 1024];
    let mesh = loader.load_chunk(cc(0, 0, 0), &heights, &mut map).unwrap();
    assert!(mesh.is_err());
    assert!(loader.is_loaded(cc(0, 0, 0)));
    assert_eq!(loader.renderable_of(cc(0, 0, 0)), None);
}

#[test]
fn unload_set_uses_manhattan_distance() {
    let mut loader = ChunkLoader::new(cc(0, 0, 0));
    let mut map = ChunkMap::new();
    let mut next_id = 1u64;
    let coords = vec![cc(1, 1, 0), cc(1, 0, 0), cc(2, 0, 0), cc(0, 0, 0)];
    load_all(&mut loader, &mut map, &coords, &mut next_id);
    let far = loader.get_chunks_to_unload(cc(0, 0, 0), 1);
    assert_eq!(far, vec![cc(1, 1, 0), cc(2, 0, 0)]);
}

#[test]
fn negative_view_distance_loads_nothing() {
    let loader = ChunkLoader::new(cc(0, 0, 0));
    assert!(loader.get_chunks_to_load(cc(0, 0, 0), -1).is_empty());
}
