pub mod catalogs;
pub mod chars;
pub mod i18n;
pub mod json;
pub mod laws;
pub mod lights;
pub mod order;
pub mod tray;
