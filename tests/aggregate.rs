use data_sink::aggregate::{group_by_room, AggregateError, RoomGroup, Sample};

struct Reading {
    room_id: usize,
    temperature: f64,
    rel_humidity: f64,
    fires: u64,
}

fn samples(readings: &[Reading]) -> Vec<Sample> {
    readings
        .iter()
        .map(|r| Sample { room_id: r.room_id, fires: r.fires })
        .collect()
}

fn averages(readings: &[Reading], group: &RoomGroup) -> (f64, f64) {
    let cnt = group.members.len() as f64;
    let t: f64 = group.members.iter().map(|&i| readings[i].temperature).sum();
    let h: f64 = group.members.iter().map(|&i| readings[i].rel_humidity).sum();
    (t / cnt, h / cnt)
}

#[test]
fn two_readings_of_one_room_are_averaged() {
    let readings = [
        Reading { room_id: 1, temperature: 10.0, rel_humidity: 0.1, fires: 0 },
        Reading { room_id: 1, temperature: 20.0, rel_humidity: 0.3, fires: 1 },
    ];
    let groups = group_by_room(&samples(&readings)).unwrap();
    assert_eq!(groups.len(), 1);
    assert_eq!(groups[0].room_id, 1);
    assert_eq!(groups[0].members, vec![0, 1]);
    assert_eq!(groups[0].total_fires, 1);
    let (t, h) = averages(&readings, &groups[0]);
    assert_eq!(t, 15.0);
    assert_eq!(h, 0.2);
}

#[test]
fn empty_window_gives_no_groups() {
    let groups = group_by_room(&Vec::new()).unwrap();
    assert!(groups.is_empty());
}

#[test]
fn single_reading_is_its_own_average() {
    let readings = [
        Reading { room_id: 9, temperature: 23.25, rel_humidity: 0.61, fires: 2 },
        Reading { room_id: 4, temperature: 18.0, rel_humidity: 0.5, fires: 0 },
        Reading { room_id: 4, temperature: 19.0, rel_humidity: 0.7, fires: 0 },
    ];
    let groups = group_by_room(&samples(&readings)).unwrap();
    let g9 = groups.iter().find(|g| g.room_id == 9).unwrap();
    assert_eq!(g9.members, vec![0]);
    assert_eq!(g9.total_fires, 2);
    assert_eq!(averages(&readings, g9), (23.25, 0.61));
}

#[test]
fn two_connections_same_room_one_row() {
    let readings = [
        Reading { room_id: 5, temperature: 20.0, rel_humidity: 0.4, fires: 0 },
        Reading { room_id: 5, temperature: 22.0, rel_humidity: 0.6, fires: 1 },
    ];
    let groups = group_by_room(&samples(&readings)).unwrap();
    assert_eq!(groups.len(), 1);
    assert_eq!(groups[0].room_id, 5);
    assert_eq!(groups[0].total_fires, 1);
    let (t, h) = averages(&readings, &groups[0]);
    assert_eq!(t, 21.0);
    assert_eq!(h, 0.5);
}

#[test]
fn groups_come_in_room_order_with_members_in_arrival_order() {
    let batch = vec![
        Sample { room_id: 7, fires: 1 },
        Sample { room_id: 2, fires: 0 },
        Sample { room_id: 7, fires: 3 },
        Sample { room_id: 0, fires: 0 },
        Sample { room_id: 2, fires: 5 },
    ];
    let groups = group_by_room(&batch).unwrap();
    let rooms: Vec<usize> = groups.iter().map(|g| g.room_id).collect();
    assert_eq!(rooms, vec![0, 2, 7]);
    assert_eq!(groups[1].members, vec![1, 4]);
    assert_eq!(groups[1].total_fires, 5);
    assert_eq!(groups[2].members, vec![0, 2]);
    assert_eq!(groups[2].total_fires, 4);
}

#[test]
fn fire_total_overflow_is_reported() {
    let batch = vec![
        Sample { room_id: 1, fires: 3 },
        Sample { room_id: 3, fires: u64::MAX },
        Sample { room_id: 3, fires: 1 },
    ];
    assert_eq!(
        group_by_room(&batch).unwrap_err(),
        AggregateError::FireCountOverflow { room_id: 3 }
    );
}

#[test]
fn fire_total_at_the_limit_is_accepted() {
    let batch = vec![
        Sample { room_id: 3, fires: u64::MAX - 1 },
        Sample { room_id: 3, fires: 1 },
    ];
    assert_eq!(group_by_room(&batch).unwrap()[0].total_fires, u64::MAX);
}
