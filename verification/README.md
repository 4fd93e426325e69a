# Keylight Commander

Control Elgato Key Lights on the local network from the Linux tray.

- `src/` is the verified library: translations and messages (`i18n`, `catalogs`), light
  states, devices and the controller's decisions (`lights`), the order of the light list
  (`order`), the tray menu and background-loop decisions (`tray`), JSON member access
  (`json`), character utilities (`chars`) and properties that span operations (`laws`).
- `app/` runs the desktop application: HTTP to the lights, mDNS discovery, the
  configuration file, Tauri windows and tray, and the background loop.
- `tests/` exercises the library on concrete values.
