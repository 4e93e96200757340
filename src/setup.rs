//! Shell scripts that configure a client's package manager to use the
//! repository, one per package type, for a repository reached at a given
//! scheme and host.

use vstd::prelude::*;
use crate::processor::PackageType;

verus! {

/// The base URL of the repository: `<scheme>://<host>`.
pub open spec fn base_url_spec(scheme: Seq<char>, host: Seq<char>) -> Seq<char> {
    scheme + "://"@ + host
}

/// The text of the script for `t` before the first base URL.
pub open spec fn script_head_spec(t: PackageType) -> Seq<char> {
    match t {
        PackageType::Deb => r#"#!/bin/bash
# Package Repository - APT Setup Script
# Usage: curl -fsSL "#@,
        PackageType::Rpm => r#"#!/bin/bash
# Package Repository - YUM/DNF Setup Script
# Usage: curl -fsSL "#@,
        PackageType::Arch => r#"#!/bin/bash
# Package Repository - Pacman Setup Script
# Usage: curl -fsSL "#@,
        PackageType::Alpine => r#"#!/bin/bash
# Package Repository - APK Setup Script
# Usage: curl -fsSL "#@,
    }
}

/// The text of the script for `t` between the two base URLs.
pub open spec fn script_middle_spec(t: PackageType) -> Seq<char> {
    match t {
        PackageType::Deb => r#"/setup/apt | sudo bash

set -e

REPO_URL=""#@,
        PackageType::Rpm => r#"/setup/rpm | sudo bash

set -e

REPO_URL=""#@,
        PackageType::Arch => r#"/setup/arch | sudo bash

set -e

REPO_URL=""#@,
        PackageType::Alpine => r#"/setup/alpine | sh

set -e

REPO_URL=""#@,
    }
}

/// The text of the script for `t` after the second base URL.
pub open spec fn script_tail_spec(t: PackageType) -> Seq<char> {
    match t {
        PackageType::Deb => r#""
KEYRING_PATH="/usr/share/keyrings/package-repo.gpg"
LIST_PATH="/etc/apt/sources.list.d/package-repo.list"

echo "Setting up APT repository from $REPO_URL..."

# Download and install GPG key
echo "Downloading GPG key..."
curl -fsSL "$REPO_URL/repo.gpg" | gpg --dearmor -o "$KEYRING_PATH"

# Add repository
echo "Adding repository..."
cat > "$LIST_PATH" << EOF
deb [signed-by=$KEYRING_PATH] $REPO_URL/deb stable main
EOF

# Update package lists
echo "Updating package lists..."
apt-get update

echo ""
echo "Done! Repository configured successfully."
echo "You can now install packages with: apt install <package-name>"
"#@,
        PackageType::Rpm => r#""

echo "Setting up YUM/DNF repository from $REPO_URL..."

# Create repo file
cat > /etc/yum.repos.d/package-repo.repo << EOF
[package-repo]
name=Package Repository
baseurl=$REPO_URL/rpm/\$basearch/
enabled=1
gpgcheck=1
gpgkey=$REPO_URL/repo.gpg
EOF

# Import GPG key
echo "Importing GPG key..."
rpm --import "$REPO_URL/repo.gpg"

# Update cache
echo "Updating package cache..."
if command -v dnf &> /dev/null; then
    dnf makecache
else
    yum makecache
fi

echo ""
echo "Done! Repository configured successfully."
echo "You can now install packages with: dnf install <package-name>"
"#@,
        PackageType::Arch => r#""

echo "Setting up Pacman repository from $REPO_URL..."

# Check if already configured
if grep -q "package-repo" /etc/pacman.conf 2>/dev/null; then
    echo "Repository already configured in /etc/pacman.conf"
else
    # Add repository to pacman.conf
    echo "Adding repository to /etc/pacman.conf..."
    cat >> /etc/pacman.conf << EOF

[package-repo]
SigLevel = Optional TrustAll
Server = $REPO_URL/arch/\$arch
EOF
fi

# Sync databases
echo "Syncing package databases..."
pacman -Sy

echo ""
echo "Done! Repository configured successfully."
echo "You can now install packages with: pacman -S <package-name>"
"#@,
        PackageType::Alpine => r#""

echo "Setting up APK repository from $REPO_URL..."

# Download GPG key
echo "Downloading repository key..."
wget -qO /etc/apk/keys/package-repo.rsa.pub "$REPO_URL/repo.gpg"

# Add repository if not already present
if ! grep -q "$REPO_URL/alpine" /etc/apk/repositories 2>/dev/null; then
    echo "Adding repository..."
    echo "$REPO_URL/alpine/v3.19/main" >> /etc/apk/repositories
fi

# Update package index
echo "Updating package index..."
apk update

echo ""
echo "Done! Repository configured successfully."
echo "You can now install packages with: apk add <package-name>"
"#@,
    }
}

/// The setup script for `t`, for a repository at `<scheme>://<host>`: it
/// names the base URL once in its usage line and once as `REPO_URL`.
pub open spec fn setup_script_spec(t: PackageType, scheme: Seq<char>, host: Seq<char>) -> Seq<char> {
    script_head_spec(t) + base_url_spec(scheme, host) + script_middle_spec(t) + base_url_spec(
        scheme,
        host,
    ) + script_tail_spec(t)
}

/// The text of the script for `t` before the first base URL.
fn script_head(t: PackageType) -> (r: &'static str)
    ensures
        r@ == script_head_spec(t),
{
    match t {
        PackageType::Deb => r#"#!/bin/bash
# Package Repository - APT Setup Script
# Usage: curl -fsSL "#,
        PackageType::Rpm => r#"#!/bin/bash
# Package Repository - YUM/DNF Setup Script
# Usage: curl -fsSL "#,
        PackageType::Arch => r#"#!/bin/bash
# Package Repository - Pacman Setup Script
# Usage: curl -fsSL "#,
        PackageType::Alpine => r#"#!/bin/bash
# Package Repository - APK Setup Script
# Usage: curl -fsSL "#,
    }
}

/// The text of the script for `t` between the two base URLs.
fn script_middle(t: PackageType) -> (r: &'static str)
    ensures
        r@ == script_middle_spec(t),
{
    match t {
        PackageType::Deb => r#"/setup/apt | sudo bash

set -e

REPO_URL=""#,
        PackageType::Rpm => r#"/setup/rpm | sudo bash

set -e

REPO_URL=""#,
        PackageType::Arch => r#"/setup/arch | sudo bash

set -e

REPO_URL=""#,
        PackageType::Alpine => r#"/setup/alpine | sh

set -e

REPO_URL=""#,
    }
}

/// The text of the script for `t` after the second base URL.
fn script_tail(t: PackageType) -> (r: &'static str)
    ensures
        r@ == script_tail_spec(t),
{
    match t {
        PackageType::Deb => r#""
KEYRING_PATH="/usr/share/keyrings/package-repo.gpg"
LIST_PATH="/etc/apt/sources.list.d/package-repo.list"

echo "Setting up APT repository from $REPO_URL..."

# Download and install GPG key
echo "Downloading GPG key..."
curl -fsSL "$REPO_URL/repo.gpg" | gpg --dearmor -o "$KEYRING_PATH"

# Add repository
echo "Adding repository..."
cat > "$LIST_PATH" << EOF
deb [signed-by=$KEYRING_PATH] $REPO_URL/deb stable main
EOF

# Update package lists
echo "Updating package lists..."
apt-get update

echo ""
echo "Done! Repository configured successfully."
echo "You can now install packages with: apt install <package-name>"
"#,
        PackageType::Rpm => r#""

echo "Setting up YUM/DNF repository from $REPO_URL..."

# Create repo file
cat > /etc/yum.repos.d/package-repo.repo << EOF
[package-repo]
name=Package Repository
baseurl=$REPO_URL/rpm/\$basearch/
enabled=1
gpgcheck=1
gpgkey=$REPO_URL/repo.gpg
EOF

# Import GPG key
echo "Importing GPG key..."
rpm --import "$REPO_URL/repo.gpg"

# Update cache
echo "Updating package cache..."
if command -v dnf &> /dev/null; then
    dnf makecache
else
    yum makecache
fi

echo ""
echo "Done! Repository configured successfully."
echo "You can now install packages with: dnf install <package-name>"
"#,
        PackageType::Arch => r#""

echo "Setting up Pacman repository from $REPO_URL..."

# Check if already configured
if grep -q "package-repo" /etc/pacman.conf 2>/dev/null; then
    echo "Repository already configured in /etc/pacman.conf"
else
    # Add repository to pacman.conf
    echo "Adding repository to /etc/pacman.conf..."
    cat >> /etc/pacman.conf << EOF

[package-repo]
SigLevel = Optional TrustAll
Server = $REPO_URL/arch/\$arch
EOF
fi

# Sync databases
echo "Syncing package databases..."
pacman -Sy

echo ""
echo "Done! Repository configured successfully."
echo "You can now install packages with: pacman -S <package-name>"
"#,
        PackageType::Alpine => r#""

echo "Setting up APK repository from $REPO_URL..."

# Download GPG key
echo "Downloading repository key..."
wget -qO /etc/apk/keys/package-repo.rsa.pub "$REPO_URL/repo.gpg"

# Add repository if not already present
if ! grep -q "$REPO_URL/alpine" /etc/apk/repositories 2>/dev/null; then
    echo "Adding repository..."
    echo "$REPO_URL/alpine/v3.19/main" >> /etc/apk/repositories
fi

# Update package index
echo "Updating package index..."
apk update

echo ""
echo "Done! Repository configured successfully."
echo "You can now install packages with: apk add <package-name>"
"#,
    }
}

/// The value of a request header, or `default` where the request has none
/// that can be read as text.
pub fn header_or<'a>(value: Option<&'a str>, default: &'a str) -> (r: &'a str)
    ensures
        r@ == match value {
            Some(v) => v@,
            None => default@,
        },
{
    match value {
        Some(v) => v,
        None => default,
    }
}

/// The base URL of the repository.
pub fn base_url(scheme: &str, host: &str) -> (r: String)
    ensures
        r@ == base_url_spec(scheme@, host@),
{
    let mut s = String::from_str(scheme);
    s.append("://");
    s.append(host);
    s
}

/// The setup script for `t`, for a repository at `<scheme>://<host>`.
pub fn setup_script(t: PackageType, scheme: &str, host: &str) -> (r: String)
    ensures
        r@ == setup_script_spec(t, scheme@, host@),
{
    let base = base_url(scheme, host);
    let mut s = String::from_str(script_head(t));
    s.append(base.as_str());
    s.append(script_middle(t));
    s.append(base.as_str());
    s.append(script_tail(t));
    s
}

} // verus!
