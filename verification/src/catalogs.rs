//! The bundled translation catalogs, as JSON objects from message keys to templates.
use vstd::prelude::*;

verus! {

/// English texts; `{name}` marks a parameter.
pub const EN_CATALOG: &'static str = r#"{
  "all_lights": "All lights",
  "all_off": "All off",
  "all_on": "All on",
  "attention": "Attention: {message}",
  "brightness": "Brightness",
  "empty_menu": "No lights found",
  "error.autostart": "Autostart could not be changed",
  "error.config_directory": "The configuration directory is unavailable",
  "error.config_read": "The configuration could not be read",
  "error.config_save": "The configuration could not be saved",
  "error.device": "{name}",
  "error.discovery": "Some lights could not be added",
  "error.invalid_setting": "Invalid light setting",
  "error.name": "Names need 1 to 128 characters",
  "error.no_identity": "The light reports neither a serial number nor a MAC address",
  "error.no_lights": "The device reports no light",
  "error.partial": "{succeeded} succeeded, {failed} failed",
  "error.restore": "The previous light state could not be restored",
  "error.scan": "The search failed",
  "error.shutting_down": "The application is shutting down",
  "error.technical": "{details}",
  "error.unknown_light": "Unknown light",
  "light_status": "{brightness}% \u00b7 {kelvin} K",
  "off": "Off",
  "offline": "Offline",
  "on": "On",
  "open_controls": "Open controls",
  "quit": "Quit",
  "quitting": "Quitting",
  "scan": "Search for lights",
  "scanning": "Searching\u2026",
  "settings": "Settings",
  "temperature": "Color temperature",
  "turn_off": "Turn off",
  "turn_on": "Turn on"
}"#;

/// German texts; `{name}` marks a parameter.
pub const DE_CATALOG: &'static str = r#"{
  "all_lights": "Alle Lampen",
  "all_off": "Alle aus",
  "all_on": "Alle ein",
  "attention": "Achtung: {message}",
  "brightness": "Helligkeit",
  "empty_menu": "Keine Lampen gefunden",
  "error.autostart": "Der Autostart konnte nicht ge\u00e4ndert werden",
  "error.config_directory": "Das Konfigurationsverzeichnis ist nicht verf\u00fcgbar",
  "error.config_read": "Die Konfiguration konnte nicht gelesen werden",
  "error.config_save": "Die Konfiguration konnte nicht gespeichert werden",
  "error.device": "{name}",
  "error.discovery": "Einige Lampen konnten nicht hinzugef\u00fcgt werden",
  "error.invalid_setting": "Ung\u00fcltige Lampeneinstellung",
  "error.name": "Namen brauchen 1 bis 128 Zeichen",
  "error.no_identity": "Die Lampe meldet weder Seriennummer noch MAC-Adresse",
  "error.no_lights": "Das Ger\u00e4t meldet keine Lampe",
  "error.partial": "{succeeded} erfolgreich, {failed} fehlgeschlagen",
  "error.restore": "Der vorherige Lampenzustand konnte nicht wiederhergestellt werden",
  "error.scan": "Die Suche ist fehlgeschlagen",
  "error.shutting_down": "Die Anwendung wird beendet",
  "error.technical": "{details}",
  "error.unknown_light": "Unbekannte Lampe",
  "light_status": "{brightness}% \u00b7 {kelvin} K",
  "off": "Aus",
  "offline": "Offline",
  "on": "Ein",
  "open_controls": "Steuerung \u00f6ffnen",
  "quit": "Beenden",
  "quitting": "Wird beendet",
  "scan": "Nach Lampen suchen",
  "scanning": "Suche l\u00e4uft\u2026",
  "settings": "Einstellungen",
  "temperature": "Farbtemperatur",
  "turn_off": "Ausschalten",
  "turn_on": "Einschalten"
}"#;

} // verus!
