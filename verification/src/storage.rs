//! The microSD card: what is known of it and when it is ready.

use vstd::prelude::*;

verus! {

/// Where the card is mounted.
pub const MOUNT_POINT: &'static str = "/sdcard";

/// File that is written when the card is mounted, to see that it can be.
pub const READY_MARKER: &'static str = "/sdcard/.rust_gps_ntp_ready";

/// Chip select of the card.
pub const ADALOGGER_SD_CS_PIN: i32 = 10;

/// Chip select of the card on rewired boards.
pub const ADALOGGER_SD_CS_ALT_PIN: i32 = 33;

/// SPI clock.
pub const FEATHER_SPI_SCK_PIN: i32 = 36;

/// SPI data to the card and the display.
pub const FEATHER_SPI_MOSI_PIN: i32 = 35;

/// SPI data from the card.
pub const FEATHER_SPI_MISO_PIN: i32 = 37;

/// Clock of the SPI bus while the card is mounted, in kilohertz.
pub const SD_SPEED_KHZ: u32 = 400;

/// Time that the card has to answer a command.
pub const SD_COMMAND_TIMEOUT_MS: u32 = 5_000;

/// What is known of the card.
#[derive(Debug, Clone, Copy, PartialEq, Eq, Structural)]
pub struct StorageStatus {
    /// Whether it is mounted.
    pub mounted: bool,
    /// Its size in bytes.
    pub total_bytes: u64,
    /// Its free space in bytes.
    pub free_bytes: u64,
}

impl Default for StorageStatus {
    fn default() -> (r: Self)
        ensures
            r == (StorageStatus { mounted: false, total_bytes: 0, free_bytes: 0 }),
    {
        StorageStatus { mounted: false, total_bytes: 0, free_bytes: 0 }
    }
}

impl StorageStatus {
    /// Bring the status up to date.
    ///
    /// `mount_exists` tells whether the mount point is there; `usage` is the size and
    /// free space that the file system reports, `None` if it reports none. In that
    /// case the figures from before stand.
    pub fn refresh(
        mount_exists: bool,
        usage: Option<(u64, u64)>,
        previous: StorageStatus,
    ) -> (r: Self)
        ensures
            r == if !mount_exists {
                StorageStatus { mounted: false, total_bytes: 0, free_bytes: 0 }
            } else {
                match usage {
                    Some((total_bytes, free_bytes)) => StorageStatus {
                        mounted: true,
                        total_bytes,
                        free_bytes,
                    },
                    None => StorageStatus { mounted: true, ..previous },
                }
            },
    {
        if !mount_exists {
            return StorageStatus::default();
        }
        match usage {
            Some((total_bytes, free_bytes)) => StorageStatus {
                mounted: true,
                total_bytes,
                free_bytes,
            },
            None => StorageStatus {
                mounted: true,
                total_bytes: previous.total_bytes,
                free_bytes: previous.free_bytes,
            },
        }
    }

    /// The status after the card was mounted: what the file system reports, or the
    /// capacity of the card with no free space if it reports nothing.
    pub fn mounted(card_bytes: u64, usage: Option<(u64, u64)>) -> (r: Self)
        ensures
            r == match usage {
                Some((total_bytes, free_bytes)) => StorageStatus {
                    mounted: true,
                    total_bytes,
                    free_bytes,
                },
                None => StorageStatus { mounted: true, total_bytes: card_bytes, free_bytes: 0 },
            },
    {
        match usage {
            Some((total_bytes, free_bytes)) => StorageStatus {
                mounted: true,
                total_bytes,
                free_bytes,
            },
            None => StorageStatus { mounted: true, total_bytes: card_bytes, free_bytes: 0 },
        }
    }
}

/// Compute the capacity of a card from its sectors; as large as can be if it does not
/// fit.
pub fn card_capacity_bytes(sectors: u64, sector_size: u64) -> (r: u64)
    ensures
        r == if sectors * sector_size <= u64::MAX {
            sectors * sector_size
        } else {
            u64::MAX as int
        },
{
    match sectors.checked_mul(sector_size) {
        Some(bytes) => bytes,
        None => u64::MAX,
    }
}

/// How far mounting the card got.
#[derive(Debug, Clone, Copy, PartialEq, Eq, Structural)]
pub enum MountStep {
    /// The SPI host failed.
    HostFailed,
    /// The card failed.
    CardFailed,
    /// The FAT layer failed.
    FatFailed,
    /// The mount failed.
    MountFailed,
    /// The card is mounted.
    Mounted,
}

/// The status after an attempt to mount the card, from how far it got, the capacity
/// of the card and what the file system reports.
pub fn try_mount(step: MountStep, card_bytes: u64, usage: Option<(u64, u64)>) -> (r: StorageStatus)
    ensures
        r.mounted == (step == MountStep::Mounted),
        step != MountStep::Mounted ==> r == (StorageStatus {
            mounted: false,
            total_bytes: 0,
            free_bytes: 0,
        }),
        step == MountStep::Mounted ==> r == match usage {
            Some((total_bytes, free_bytes)) => StorageStatus {
                mounted: true,
                total_bytes,
                free_bytes,
            },
            None => StorageStatus { mounted: true, total_bytes: card_bytes, free_bytes: 0 },
        },
{
    match step {
        MountStep::Mounted => StorageStatus::mounted(card_bytes, usage),
        _ => StorageStatus::default(),
    }
}

/// Tell whether the card is ready: the mount point and the marker file are there.
pub fn is_ready(mount_exists: bool, marker_exists: bool) -> (r: bool)
    ensures
        r == (mount_exists && marker_exists),
{
    mount_exists && marker_exists
}

} // verus!
