//! The home menu's extended-data files as typed records.

pub mod cache;
pub mod icon;
pub mod save_data;
pub mod theme;

pub use cache::{CacheDat, CacheDatEntry};
pub use icon::{
    get_cache_d_icon, icon_offset, AppSettings, AppTitles, AtlasError, CacheDDat, CtrIcon,
    GameRatings, Icon, IconGfxLarge, IconGfxSmall, IconLayout, IconReading, NtrIcon,
};
pub use crate::text::{TextDecodeError, Utf16};
pub use save_data::SaveData;
pub use theme::{ThemeEntry, ThemeType};
