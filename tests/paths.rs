use hellpoint_save::paths::{pick_save_dir, save_dir_candidates};
use hellpoint_save::save::SaveError;

#[test]
fn windows_candidate() {
    let home = "C:\\Users\\me".to_string();
    assert_eq!(
        save_dir_candidates(&home, None, true),
        vec!["C:\\Users\\me\\AppData\\LocalLow\\Cradle Games\\Hellpoint".to_string()]
    );
}

#[test]
fn unix_candidates_default_config_root() {
    let home = "/home/me".to_string();
    assert_eq!(
        save_dir_candidates(&home, None, false),
        vec![
            "/home/me/.config/unity3d/Cradle Games/Hellpoint".to_string(),
            "/home/me/.var/app/com.valvesoftware.Steam/config/unity3d/Cradle Games/Hellpoint".to_string(),
        ]
    );
}

#[test]
fn unix_candidates_with_override() {
    let home = "/home/me/".to_string();
    let config = "/cfg".to_string();
    assert_eq!(
        save_dir_candidates(&home, Some(&config), false),
        vec![
            "/cfg/unity3d/Cradle Games/Hellpoint".to_string(),
            "/home/me/.var/app/com.valvesoftware.Steam/config/unity3d/Cradle Games/Hellpoint".to_string(),
        ]
    );
}

#[test]
fn empty_override_is_ignored() {
    let home = "/home/me".to_string();
    let config = String::new();
    assert_eq!(
        save_dir_candidates(&home, Some(&config), false)[0],
        "/home/me/.config/unity3d/Cradle Games/Hellpoint".to_string()
    );
}

#[test]
fn first_existing_candidate_is_picked() {
    assert_eq!(pick_save_dir(&vec![true, true]), Ok(0));
    assert_eq!(pick_save_dir(&vec![false, true]), Ok(1));
    assert_eq!(pick_save_dir(&vec![false, false]), Err(SaveError::NotFound));
    assert_eq!(pick_save_dir(&vec![]), Err(SaveError::NotFound));
}
