use rust_book_server_example::coord::{
    get_top_left_visible_coord, get_usercoord_from_params, user_coord_to_gamestate_coord,
    GamestateCoord, UserCoord,
};

#[test]
fn coord_test_user_coord_to_gamestate_coord() {
    assert_eq!(
        user_coord_to_gamestate_coord(&UserCoord { x: 0, y: 0 }, 9),
        GamestateCoord { x: 0, y: 0 }
    );

    assert_eq!(
        user_coord_to_gamestate_coord(&UserCoord { x: -7, y: -8 }, 9),
        GamestateCoord { x: -1, y: -1 }
    );
    assert_eq!(
        user_coord_to_gamestate_coord(&UserCoord { x: 0, y: -5 }, 9),
        GamestateCoord { x: 0, y: -1 }
    );
    assert_eq!(
        user_coord_to_gamestate_coord(&UserCoord { x: 5, y: -13 }, 9),
        GamestateCoord { x: 1, y: -1 }
    );

    assert_eq!(
        user_coord_to_gamestate_coord(&UserCoord { x: -5, y: 0 }, 9),
        GamestateCoord { x: -1, y: 0 }
    );
    assert_eq!(
        user_coord_to_gamestate_coord(&UserCoord { x: 4, y: -4 }, 9),
        GamestateCoord { x: 0, y: 0 }
    );
    assert_eq!(
        user_coord_to_gamestate_coord(&UserCoord { x: 13, y: -3 }, 9),
        GamestateCoord { x: 1, y: 0 }
    );

    assert_eq!(
        user_coord_to_gamestate_coord(&UserCoord { x: -13, y: 6 }, 9),
        GamestateCoord { x: -1, y: 1 }
    );
    assert_eq!(
        user_coord_to_gamestate_coord(&UserCoord { x: 1, y: 10 }, 9),
        GamestateCoord { x: 0, y: 1 }
    );
    assert_eq!(
        user_coord_to_gamestate_coord(&UserCoord { x: 5, y: 9 }, 9),
        GamestateCoord { x: 1, y: 1 }
    );

    assert_eq!(
        user_coord_to_gamestate_coord(&UserCoord { x: -14, y: -14 }, 9),
        GamestateCoord { x: -2, y: -2 }
    );
}

#[test]
fn rrr_game_test_user_coord_to_gamestate_coord() {
    assert_eq!(
        user_coord_to_gamestate_coord(&UserCoord { x: 0, y: 0 }, 9),
        GamestateCoord { x: 0, y: 0 }
    );

    assert_eq!(
        user_coord_to_gamestate_coord(&UserCoord { x: -7, y: -8 }, 9),
        GamestateCoord { x: -1, y: -1 }
    );
    assert_eq!(
        user_coord_to_gamestate_coord(&UserCoord { x: 0, y: -5 }, 9),
        GamestateCoord { x: 0, y: -1 }
    );
    assert_eq!(
        user_coord_to_gamestate_coord(&UserCoord { x: 5, y: -13 }, 9),
        GamestateCoord { x: 1, y: -1 }
    );

    assert_eq!(
        user_coord_to_gamestate_coord(&UserCoord { x: -5, y: 0 }, 9),
        GamestateCoord { x: -1, y: 0 }
    );
    assert_eq!(
        user_coord_to_gamestate_coord(&UserCoord { x: 4, y: -4 }, 9),
        GamestateCoord { x: 0, y: 0 }
    );
    assert_eq!(
        user_coord_to_gamestate_coord(&UserCoord { x: 13, y: -3 }, 9),
        GamestateCoord { x: 1, y: 0 }
    );

    assert_eq!(
        user_coord_to_gamestate_coord(&UserCoord { x: -13, y: 6 }, 9),
        GamestateCoord { x: -1, y: 1 }
    );
    assert_eq!(
        user_coord_to_gamestate_coord(&UserCoord { x: 1, y: 10 }, 9),
        GamestateCoord { x: 0, y: 1 }
    );
    assert_eq!(
        user_coord_to_gamestate_coord(&UserCoord { x: 5, y: 9 }, 9),
        GamestateCoord { x: 1, y: 1 }
    );

    assert_eq!(
        user_coord_to_gamestate_coord(&UserCoord { x: -14, y: -14 }, 9),
        GamestateCoord { x: -2, y: -2 }
    );
}

#[test]
fn test_get_top_left_visible_coord() {
    assert_eq!(
        get_top_left_visible_coord(&GamestateCoord { x: 0, y: 0 }, 9),
        UserCoord { x: -13, y: -13 }
    );
    assert_eq!(
        get_top_left_visible_coord(&GamestateCoord { x: 1, y: 1 }, 9),
        UserCoord { x: -4, y: -4 }
    );
    assert_eq!(
        get_top_left_visible_coord(&GamestateCoord { x: 1, y: 0 }, 9),
        UserCoord { x: -4, y: -13 }
    );
    assert_eq!(
        get_top_left_visible_coord(&GamestateCoord { x: -1, y: -1 }, 9),
        UserCoord { x: -22, y: -22 }
    );
}

#[test]
fn test_usercoord_from_params() {
    let params = vec![
        ("x".to_string(), "3".to_string()),
        ("y".to_string(), "-7".to_string()),
    ];
    assert_eq!(get_usercoord_from_params(params).unwrap(), UserCoord { x: 3, y: -7 });

    let missing_y = vec![("x".to_string(), "3".to_string())];
    assert!(get_usercoord_from_params(missing_y).is_err());

    let bad_x = vec![
        ("x".to_string(), "three".to_string()),
        ("y".to_string(), "0".to_string()),
    ];
    assert!(get_usercoord_from_params(bad_x).is_err());
}
