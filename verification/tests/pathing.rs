use rltk::{a_star_search, BaseMap, DistanceAlg, Point, SmallVec};
use roguelike::map::{GameMap, TileType};

struct Walkable<'a>(&'a GameMap);

impl<'a> BaseMap for Walkable<'a> {
    fn is_opaque(&self, idx: usize) -> bool {
        self.0.tiles[idx] == TileType::Wall
    }

    fn get_available_exits(&self, idx: usize) -> SmallVec<[(usize, f32); 10]> {
        let mut exits = SmallVec::new();
        for (exit, cost) in self.0.get_available_exits(idx) {
            exits.push((exit, cost as f32 / 100.0));
        }
        exits
    }

    fn get_pathing_distance(&self, idx1: usize, idx2: usize) -> f32 {
        let (x1, y1) = self.0.idx_xy(idx1);
        let (x2, y2) = self.0.idx_xy(idx2);
        DistanceAlg::Pythagoras.distance2d(Point::new(x1, y1), Point::new(x2, y2))
    }
}

fn step_cost(map: &GameMap, from: usize, to: usize) -> f32 {
    let exits = Walkable(map).get_available_exits(from);
    let found = exits.iter().find(|e| e.0 == to);
    found.expect("each step of a route is an exit of the tile before").1
}

#[test]
fn open_grid_route_is_straight() {
    let map = GameMap::walled(80, 50);
    let start = map.xy_idx(1, 1);
    let end = map.xy_idx(5, 1);
    let path = a_star_search(start, end, &Walkable(&map));
    assert!(path.success);
    assert_eq!(path.destination, end);
    assert_eq!(path.steps.len(), 5);
    assert_eq!(
        path.steps,
        vec![
            map.xy_idx(1, 1),
            map.xy_idx(2, 1),
            map.xy_idx(3, 1),
            map.xy_idx(4, 1),
            map.xy_idx(5, 1)
        ]
    );
    let mut cost: f32 = 0.0;
    for pair in path.steps.windows(2) {
        cost += step_cost(&map, pair[0], pair[1]);
    }
    assert_eq!(cost, 4.0);
}

#[test]
fn diagonal_step_costs_more_than_a_straight_one() {
    let map = GameMap::walled(80, 50);
    let from = map.xy_idx(4, 4);
    assert_eq!(step_cost(&map, from, map.xy_idx(5, 4)), 1.0);
    assert_eq!(step_cost(&map, from, map.xy_idx(5, 5)), 1.45);
}

#[test]
fn walled_in_goal_has_no_route() {
    let mut map = GameMap::walled(20, 20);
    for (x, y) in [(9, 9), (10, 9), (11, 9), (9, 10), (11, 10), (9, 11), (10, 11), (11, 11)] {
        let idx = map.xy_idx(x, y);
        map.blocked[idx] = true;
    }
    let path = a_star_search(map.xy_idx(2, 2), map.xy_idx(10, 10), &Walkable(&map));
    assert!(!path.success);
}

#[test]
fn route_goes_round_a_blocked_tile() {
    let mut map = GameMap::walled(20, 20);
    let idx = map.xy_idx(3, 1);
    map.blocked[idx] = true;
    let path = a_star_search(map.xy_idx(1, 1), map.xy_idx(5, 1), &Walkable(&map));
    assert!(path.success);
    assert_eq!(path.steps.first(), Some(&map.xy_idx(1, 1)));
    assert_eq!(path.steps.last(), Some(&map.xy_idx(5, 1)));
    assert!(!path.steps.contains(&idx));
}
