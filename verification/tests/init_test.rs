use moy_sekret::{init, profile_exists, MemStore};

// Fixtures
//

const F_STORAGE_DIR: &str = "./tests_temp";
const F_PROFILE: &str = "int_tester";
const F_OVERRIDE_PROFILE: bool = false;

// Tests
//

#[test]
fn should_init_a_profile_and_save_them_to_a_given_directory() {
    let mut store = MemStore::new();
    let storage_dir = F_STORAGE_DIR.to_string();
    let profile = F_PROFILE.to_string();

    match init(&mut store, &profile, &storage_dir, F_OVERRIDE_PROFILE) {
        Ok(_) => {
            if !profile_exists(&store, &profile) {
                assert!(
                    false,
                    "Should exist profile {} in {} directory",
                    &profile, &storage_dir
                );
            }
        }
        Err(e) => assert!(false, "Should have initiated but: {}", e.to_message()),
    }
}

#[test]
fn should_not_init_due_to_permission_denied_on_storage_directory() {
    let mut store = MemStore::new();
    let storage_dir = String::from("/storage");
    store.deny_dir(&storage_dir);
    let profile = F_PROFILE.to_string();

    match init(&mut store, &profile, &storage_dir, F_OVERRIDE_PROFILE) {
        Ok(_) => assert!(false, "Should have not initiated"),
        Err(reason) => {
            assert_eq!(
                "Initialization failed while creating storage for files: Could not create storage directory: Permission denied (os error 13)",
                reason.to_message()
            );
            if profile_exists(&store, &profile) {
                assert!(
                    false,
                    "Should not exist profile {} in {} directory",
                    &profile, &storage_dir
                );
            }
        }
    }
}

#[test]
fn should_init_when_profile_exists_and_override_flag_is_present() {
    let mut store = MemStore::new();
    let storage_dir = F_STORAGE_DIR.to_string();
    let profile = F_PROFILE.to_string();

    match init(&mut store, &profile, &storage_dir, F_OVERRIDE_PROFILE) {
        Ok(_) => {
            let flag_override_profile = true;
            match init(&mut store, &profile, &storage_dir, flag_override_profile) {
                Ok(_) => assert!(true),
                Err(reason) => assert_eq!(
                    "Should have initiated and overridden existent profile but:",
                    reason.to_message()
                ),
            }
        }
        Err(e) => assert!(false, "Should have initiated profile but: {}", e.to_message()),
    }
}

#[test]
fn should_not_init_when_profile_exists_and_override_flag_is_not_present() {
    let mut store = MemStore::new();
    let storage_dir = F_STORAGE_DIR.to_string();
    let profile = F_PROFILE.to_string();

    match init(&mut store, &profile, &storage_dir, F_OVERRIDE_PROFILE) {
        Ok(_) => {
            let flag_override_profile = false;
            match init(&mut store, &profile, &storage_dir, flag_override_profile) {
                Ok(_) => assert!(
                    false,
                    "Should not initialize an existent profile when override flag is not present"
                ),
                Err(reason) => assert_eq!(
                    "Initialization failed because profile already exists",
                    reason.to_message()
                ),
            }
        }
        Err(e) => assert!(false, "Should have initiated profile but: {}", e.to_message()),
    }
}
