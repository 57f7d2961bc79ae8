//! Compact full-year calendar: week layout, month filtering, color resolution
//! and the box-drawn text rendering engine.
pub mod date;
pub mod layout;
pub mod models;
pub mod palette;
pub mod rendering;
pub mod text;

pub use date::Date;
pub use layout::{align_to_week_start, WeekLayout};
pub use models::{
    Calendar, ColorMode, DateDetail, DateRange, MonthFilter, MonthInfo, PastDateDisplay,
    WeekStart, WeekendDisplay,
};
pub use palette::{CellStyle, ColorPalette, ColorValue, Rgb, TextColor};
pub use rendering::CalendarRenderer;
