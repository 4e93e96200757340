use pkgrepo::processor::PackageType;
use pkgrepo::setup::{base_url, header_or, setup_script};

#[test]
fn apt_script_exact() {
    let expected = format!(
        r#"#!/bin/bash
# Package Repository - APT Setup Script
# Usage: curl -fsSL {scheme}://{host}/setup/apt | sudo bash

set -e

REPO_URL="{scheme}://{host}"
KEYRING_PATH="/usr/share/keyrings/package-repo.gpg"
LIST_PATH="/etc/apt/sources.list.d/package-repo.list"

echo "Setting up APT repository from $REPO_URL..."

# Download and install GPG key
echo "Downloading GPG key..."
curl -fsSL "$REPO_URL/repo.gpg" | gpg --dearmor -o "$KEYRING_PATH"

# Add repository
echo "Adding repository..."
cat > "$LIST_PATH" << EOF
deb [signed-by=$KEYRING_PATH] $REPO_URL/deb stable main
EOF

# Update package lists
echo "Updating package lists..."
apt-get update

echo ""
echo "Done! Repository configured successfully."
echo "You can now install packages with: apt install <package-name>"
"#,
        scheme = "https",
        host = "repo.example.com"
    );
    assert_eq!(setup_script(PackageType::Deb, "https", "repo.example.com"), expected);
}

#[test]
fn each_script_names_the_base_url_twice() {
    for t in [PackageType::Deb, PackageType::Rpm, PackageType::Arch, PackageType::Alpine] {
        let s = setup_script(t, "http", "localhost:8080");
        assert_eq!(s.matches("http://localhost:8080").count(), 2);
        assert!(s.starts_with("#!/bin/bash\n# Package Repository - "));
        assert!(s.contains("REPO_URL=\"http://localhost:8080\""));
    }
}

#[test]
fn scripts_point_at_their_own_setup_path() {
    let rpm = setup_script(PackageType::Rpm, "http", "h");
    assert!(rpm.contains("# Usage: curl -fsSL http://h/setup/rpm | sudo bash"));
    assert!(rpm.contains("baseurl=$REPO_URL/rpm/\\$basearch/"));
    let arch = setup_script(PackageType::Arch, "http", "h");
    assert!(arch.contains("# Usage: curl -fsSL http://h/setup/arch | sudo bash"));
    assert!(arch.contains("Server = $REPO_URL/arch/\\$arch"));
    let alpine = setup_script(PackageType::Alpine, "http", "h");
    assert!(alpine.contains("# Usage: curl -fsSL http://h/setup/alpine | sh"));
    assert!(alpine.ends_with("apk add <package-name>\"\n"));
}

#[test]
fn base_url_and_header_defaults() {
    assert_eq!(base_url("https", "example.org"), "https://example.org");
    assert_eq!(header_or(None, "localhost"), "localhost");
    assert_eq!(header_or(Some("repo.local"), "localhost"), "repo.local");
}
