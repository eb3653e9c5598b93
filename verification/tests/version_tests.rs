#[test]
fn test_version_increment_logic() {
    // Test the version increment logic

    // Test starting from no version tags (should be 1.0.0)
    let new_version = get_next_version(None);
    assert_eq!(new_version, "1.0.0");

    // Test incrementing from v1.0.0 -> 1.1.0
    let new_version = get_next_version(Some("v1.0.0"));
    assert_eq!(new_version, "1.1.0");

    // Test incrementing from v1.5.0 -> 1.6.0
    let new_version = get_next_version(Some("v1.5.0"));
    assert_eq!(new_version, "1.6.0");

    // Test incrementing from v2.3.0 -> 2.4.0
    let new_version = get_next_version(Some("v2.3.0"));
    assert_eq!(new_version, "2.4.0");
}

// Helper function that mimics the release workflow's version bump
fn get_next_version(latest_tag: Option<&str>) -> String {
    match latest_tag {
        None => "1.0.0".to_string(),
        Some(tag) => {
            // Remove the 'v' prefix
            let current_version = tag.trim_start_matches('v');
            let parts: Vec<&str> = current_version.split('.').collect();

            if parts.len() == 3 {
                let major: i32 = parts[0].parse().unwrap_or(1);
                let minor: i32 = parts[1].parse().unwrap_or(0);
                let _patch: i32 = parts[2].parse().unwrap_or(0);

                let new_minor = minor + 1;
                format!("{}.{}.0", major, new_minor)
            } else {
                "1.0.0".to_string()
            }
        }
    }
}
