//! Fixed repository lists that decide where bare pocket branches are built.

use vstd::prelude::*;
use crate::text::str_eq;

verus! {

/// Repositories built for both distributions.
pub open spec fn dev_repos() -> Seq<&'static str> {
    seq![
        "accountsservice",
        "alsa-ucm-conf",
        "alsa-utils",
        "amd-ppt-bin",
        "amd64-microcode",
        "bcmwl",
        "bluez",
        "directx-headers",
        "distinst",
        "dwarves",
        "egl-wayland",
        "firmware-manager",
        "fwupd",
        "fwupd-efi",
        "gdm3",
        "gnome-desktop3",
        "gnome-settings-daemon",
        "gnome-shell",
        "gnome-shell-extension-system76-power",
        "hidpi-daemon",
        "kbuild",
        "libabigail",
        "libasound2",
        "libbpf",
        "libdrm",
        "libtraceevent",
        "libtracefs",
        "libvdpau",
        "libxmlb",
        "linux",
        "linux-firmware",
        "mesa",
        "ninja-build",
        "nvidia-graphics-drivers",
        "nvidia-graphics-drivers-470",
        "nvidia-graphics-drivers-565",
        "spirv-headers",
        "spirv-llvm-translator-15",
        "spirv-tools",
        "system76-acpi-dkms",
        "system76-dkms",
        "system76-driver",
        "system76-firmware",
        "system76-io-dkms",
        "system76-keyboard-configurator",
        "system76-oled",
        "system76-power",
        "system76-wallpapers",
        "systemd",
        "ubuntu-drivers-common",
        "virtualbox",
        "virtualbox-ext-pack",
        "wayland",
        "wayland-protocols",
        "zfs-linux",
    ]
}

/// Repositories built for the 20.04 release in addition to [`dev_repos`].
pub open spec fn pop_focal_repos() -> Seq<&'static str> {
    seq![
        "alacritty",
        "appstream-data",
        "apt",
        "atom-editor",
        "buildchain",
        "bustd",
        "connectivity",
        "cosmic-design-demo",
        "cosmic-screenshot",
        "debconf",
        "default-settings",
        "desktop",
        "desktop-icons-ng",
        "distinst-v2",
        "eddy",
        "flatpak",
        "fonts",
        "gamehub",
        "gnome-control-center",
        "gnome-initial-setup",
        "gnome-online-accounts",
        "gnome-shell-extension-alt-tab-raise-first-window",
        "gnome-shell-extension-always-show-workspaces",
        "gnome-shell-extension-do-not-disturb",
        "gnome-shell-extension-pop-battery-icon-fix",
        "gnome-shell-extension-pop-shop-details",
        "gnome-shell-extension-pop-suspend-button",
        "gnome-terminal",
        "granite",
        "grub-theme",
        "gtk-theme",
        "happiness",
        "hidpi-widget",
        "icon-theme",
        "installer",
        "just",
        "kernelstub",
        "keyboard-configurator",
        "keyring",
        "launcher",
        "libhandy",
        "libnvidia-container",
        "lutris",
        "meta-python",
        "nvidia-container-runtime",
        "nvidia-container-toolkit",
        "nvidia-vaapi-driver",
        "packaging-natron",
        "packaging-rust",
        "plymouth",
        "plymouth-theme",
        "popsicle",
        "protonvpn-nm-lib",
        "python-apt",
        "repolib",
        "repoman",
        "rtl8821ce-dkms",
        "session",
        "sessioninstaller",
        "shell",
        "shell-shortcuts",
        "shop",
        "steam",
        "support-panel",
        "system-updater",
        "system76-scheduler",
        "tensorman",
        "theme",
        "theme-switcher",
        "transition",
        "upgrade",
        "v4l2loopback",
        "wallpapers",
    ]
}

/// `name` is one of the entries of `list`.
pub open spec fn listed(list: Seq<&'static str>, name: Seq<char>) -> bool {
    exists|i: int| 0 <= i < list.len() && list[i]@ == name
}

/// The repositories built for both distributions.
pub fn dev_repo_list() -> (r: Vec<&'static str>)
    ensures
        r@ == dev_repos(),
{
    let v = vec![
        "accountsservice",
        "alsa-ucm-conf",
        "alsa-utils",
        "amd-ppt-bin",
        "amd64-microcode",
        "bcmwl",
        "bluez",
        "directx-headers",
        "distinst",
        "dwarves",
        "egl-wayland",
        "firmware-manager",
        "fwupd",
        "fwupd-efi",
        "gdm3",
        "gnome-desktop3",
        "gnome-settings-daemon",
        "gnome-shell",
        "gnome-shell-extension-system76-power",
        "hidpi-daemon",
        "kbuild",
        "libabigail",
        "libasound2",
        "libbpf",
        "libdrm",
        "libtraceevent",
        "libtracefs",
        "libvdpau",
        "libxmlb",
        "linux",
        "linux-firmware",
        "mesa",
        "ninja-build",
        "nvidia-graphics-drivers",
        "nvidia-graphics-drivers-470",
        "nvidia-graphics-drivers-565",
        "spirv-headers",
        "spirv-llvm-translator-15",
        "spirv-tools",
        "system76-acpi-dkms",
        "system76-dkms",
        "system76-driver",
        "system76-firmware",
        "system76-io-dkms",
        "system76-keyboard-configurator",
        "system76-oled",
        "system76-power",
        "system76-wallpapers",
        "systemd",
        "ubuntu-drivers-common",
        "virtualbox",
        "virtualbox-ext-pack",
        "wayland",
        "wayland-protocols",
        "zfs-linux",
    ];
    assert(v@ =~= dev_repos());
    v
}

/// The repositories built for the 20.04 release besides the shared ones.
pub fn pop_focal_repo_list() -> (r: Vec<&'static str>)
    ensures
        r@ == pop_focal_repos(),
{
    let v = vec![
        "alacritty",
        "appstream-data",
        "apt",
        "atom-editor",
        "buildchain",
        "bustd",
        "connectivity",
        "cosmic-design-demo",
        "cosmic-screenshot",
        "debconf",
        "default-settings",
        "desktop",
        "desktop-icons-ng",
        "distinst-v2",
        "eddy",
        "flatpak",
        "fonts",
        "gamehub",
        "gnome-control-center",
        "gnome-initial-setup",
        "gnome-online-accounts",
        "gnome-shell-extension-alt-tab-raise-first-window",
        "gnome-shell-extension-always-show-workspaces",
        "gnome-shell-extension-do-not-disturb",
        "gnome-shell-extension-pop-battery-icon-fix",
        "gnome-shell-extension-pop-shop-details",
        "gnome-shell-extension-pop-suspend-button",
        "gnome-terminal",
        "granite",
        "grub-theme",
        "gtk-theme",
        "happiness",
        "hidpi-widget",
        "icon-theme",
        "installer",
        "just",
        "kernelstub",
        "keyboard-configurator",
        "keyring",
        "launcher",
        "libhandy",
        "libnvidia-container",
        "lutris",
        "meta-python",
        "nvidia-container-runtime",
        "nvidia-container-toolkit",
        "nvidia-vaapi-driver",
        "packaging-natron",
        "packaging-rust",
        "plymouth",
        "plymouth-theme",
        "popsicle",
        "protonvpn-nm-lib",
        "python-apt",
        "repolib",
        "repoman",
        "rtl8821ce-dkms",
        "session",
        "sessioninstaller",
        "shell",
        "shell-shortcuts",
        "shop",
        "steam",
        "support-panel",
        "system-updater",
        "system76-scheduler",
        "tensorman",
        "theme",
        "theme-switcher",
        "transition",
        "upgrade",
        "v4l2loopback",
        "wallpapers",
    ];
    assert(v@ =~= pop_focal_repos());
    v
}

/// Whether `name` is an entry of `list`.
pub fn is_listed(list: &Vec<&'static str>, name: &str) -> (r: bool)
    ensures
        r == listed(list@, name@),
{
    let mut i: usize = 0;
    while i < list.len()
        invariant
            i <= list@.len(),
            forall|j: int| 0 <= j < i ==> list@[j]@ != name@,
        decreases list@.len() - i,
    {
        if str_eq(list[i], name) {
            return true;
        }
        i = i + 1;
    }
    false
}

/// Whether `name` is built for both distributions.
pub fn is_dev_repo(name: &str) -> (r: bool)
    ensures
        r == listed(dev_repos(), name@),
{
    let list = dev_repo_list();
    is_listed(&list, name)
}

/// Whether `name` is built by default for the 20.04 release.
pub fn is_pop_focal_repo(name: &str) -> (r: bool)
    ensures
        r == (listed(dev_repos(), name@) || listed(pop_focal_repos(), name@)),
{
    if is_dev_repo(name) {
        return true;
    }
    let list = pop_focal_repo_list();
    is_listed(&list, name)
}

} // verus!
