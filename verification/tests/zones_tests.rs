use dildonica::zones::{
    create_default_zone_map, parse_zone_map, remap_zone, ZoneMapError, ZoneMapIssue,
};

#[test]
fn identity_string_parses_to_identity() {
    let map = parse_zone_map("0,1,2,3,4,5,6,7", 8).unwrap();
    assert_eq!(map, vec![0, 1, 2, 3, 4, 5, 6, 7]);
}

#[test]
fn example_permutation_parses() {
    let map = parse_zone_map("5,6,7,2,1,3,4,0", 8).unwrap();
    assert_eq!(map, vec![5, 6, 7, 2, 1, 3, 4, 0]);
}

#[test]
fn whitespace_around_elements_is_trimmed() {
    let map = parse_zone_map(" 5 ,\t6 , 7,2,1,3,4, 0", 8).unwrap();
    assert_eq!(map, vec![5, 6, 7, 2, 1, 3, 4, 0]);
}

#[test]
fn repeated_element_fails() {
    assert_eq!(
        parse_zone_map("0,1,2,3,4,5,6,0", 8),
        Err(ZoneMapError::InvalidZoneMap(ZoneMapIssue::Duplicate))
    );
}

#[test]
fn wrong_element_count_fails() {
    assert_eq!(
        parse_zone_map("0,1,2", 8),
        Err(ZoneMapError::InvalidZoneMap(ZoneMapIssue::WrongCount))
    );
    assert_eq!(
        parse_zone_map("0,1,2,3,4,5,6,7,7", 8),
        Err(ZoneMapError::InvalidZoneMap(ZoneMapIssue::WrongCount))
    );
    assert_eq!(
        parse_zone_map("", 8),
        Err(ZoneMapError::InvalidZoneMap(ZoneMapIssue::WrongCount))
    );
}

#[test]
fn out_of_range_element_fails() {
    assert_eq!(
        parse_zone_map("0,1,2,3,4,5,6,8", 8),
        Err(ZoneMapError::InvalidZoneMap(ZoneMapIssue::OutOfRange))
    );
}

#[test]
fn non_numeric_element_fails() {
    assert_eq!(
        parse_zone_map("0,1,2,3,4,5,6,x", 8),
        Err(ZoneMapError::InvalidZoneMap(ZoneMapIssue::NotANumber))
    );
    assert_eq!(
        parse_zone_map("0,1,2,3,4,5,6,", 8),
        Err(ZoneMapError::InvalidZoneMap(ZoneMapIssue::NotANumber))
    );
    assert_eq!(
        parse_zone_map("0,1,2,3,4,5,6,-1", 8),
        Err(ZoneMapError::InvalidZoneMap(ZoneMapIssue::NotANumber))
    );
}

#[test]
fn overflowing_element_fails() {
    assert_eq!(
        parse_zone_map("0,1,2,3,4,5,6,99999999999999999999999999", 8),
        Err(ZoneMapError::InvalidZoneMap(ZoneMapIssue::NotANumber))
    );
}

#[test]
fn default_zone_map_is_identity() {
    assert_eq!(create_default_zone_map(8), vec![0, 1, 2, 3, 4, 5, 6, 7]);
    assert_eq!(create_default_zone_map(0), Vec::<usize>::new());
}

#[test]
fn remap_finds_position_of_physical_zone() {
    let map = vec![5, 6, 7, 2, 1, 3, 4, 0];
    assert_eq!(remap_zone(3, &map), 5);
    assert_eq!(remap_zone(5, &map), 0);
    assert_eq!(remap_zone(0, &map), 7);
}

#[test]
fn remap_falls_back_to_identity_when_zone_is_missing() {
    let malformed = vec![0, 0, 0, 0, 0, 0, 0, 0];
    assert_eq!(remap_zone(5, &malformed), 5);
    assert_eq!(remap_zone(0, &malformed), 0);
}

#[test]
fn remap_takes_the_first_occurrence() {
    let malformed = vec![3, 3, 3, 1, 0, 0, 0, 0];
    assert_eq!(remap_zone(3, &malformed), 0);
    assert_eq!(remap_zone(0, &malformed), 4);
}
