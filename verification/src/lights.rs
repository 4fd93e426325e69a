//! Light states, changes to them, devices and what the controller reports.
use crate::chars::{ascii_lower, decimal, owned, push_decimal, push_lower, trim, trimmed};
use crate::i18n::{Language, Message, MessageView};
use crate::json::{
    find_member_str, json_object_members, member_str, object_members, parsed_view,
};
use vstd::prelude::*;
use vstd::string::*;

verus! {

/// The state of one light: power (0 or 1), brightness in percent and colour
/// temperature in mired.
#[derive(Clone, Copy, Debug, Default, PartialEq, Eq, Structural)]
pub struct LightState {
    pub on: u8,
    pub brightness: u8,
    pub temperature: u16,
}

/// A change to some of a light's properties.
#[derive(Clone, Copy, Debug, Default, PartialEq, Eq, Structural)]
pub struct Patch {
    pub on: Option<u8>,
    pub brightness: Option<u8>,
    pub temperature: Option<u16>,
}

impl Patch {
    /// Every value the patch sets is one that a light accepts.
    pub open spec fn valid(self) -> bool {
        &&& (self.on matches Some(v) ==> v <= 1)
        &&& (self.brightness matches Some(v) ==> v <= 100)
        &&& (self.temperature matches Some(v) ==> 143 <= v <= 344)
    }

    /// `state` with the values that the patch sets.
    pub open spec fn applied(self, state: LightState) -> LightState {
        LightState {
            on: match self.on {
                Some(v) => v,
                None => state.on,
            },
            brightness: match self.brightness {
                Some(v) => v,
                None => state.brightness,
            },
            temperature: match self.temperature {
                Some(v) => v,
                None => state.temperature,
            },
        }
    }

    /// Sets the patch's values in `state`, or leaves `state` alone and reports an
    /// invalid setting if a value is out of range.
    pub fn apply(&self, state: &mut LightState) -> (r: Result<(), Message>)
        ensures
            r is Ok <==> self.valid(),
            r is Ok ==> *final(state) == self.applied(*old(state)),
            r is Ok ==> (self.on matches Some(v) ==> final(state).on == v) && (self.on is None
                ==> final(state).on == old(state).on),
            r is Ok ==> (self.brightness matches Some(v) ==> final(state).brightness == v) && (
            self.brightness is None ==> final(state).brightness == old(state).brightness),
            r is Ok ==> (self.temperature matches Some(v) ==> final(state).temperature == v) && (
            self.temperature is None ==> final(state).temperature == old(state).temperature),
            r matches Err(e) ==> *final(state) == *old(state) && e@ == invalid_setting(),
    {
        let bad_on = match self.on {
            Some(v) => v > 1,
            None => false,
        };
        let bad_brightness = match self.brightness {
            Some(v) => v > 100,
            None => false,
        };
        let bad_temperature = match self.temperature {
            Some(v) => !(143 <= v && v <= 344),
            None => false,
        };
        if bad_on || bad_brightness || bad_temperature {
            return Err(Message::new("error.invalid_setting"));
        }
        if let Some(v) = self.on {
            state.on = v;
        }
        if let Some(v) = self.brightness {
            state.brightness = v;
        }
        if let Some(v) = self.temperature {
            state.temperature = v;
        }
        Ok(())
    }
}

/// The message with key `key` and nothing else.
pub open spec fn plain(key: Seq<char>) -> MessageView {
    MessageView { key, params: Map::empty(), causes: Seq::empty() }
}

pub open spec fn invalid_setting() -> MessageView {
    plain("error.invalid_setting"@)
}

/// A saved light. `info` is the JSON text of the light's accessory information.
#[derive(Debug)]
pub struct Device {
    pub id: String,
    pub host: String,
    pub port: u16,
    pub name: String,
    pub info: String,
    pub state: Option<LightState>,
    pub error: Option<Message>,
}

/// What a device holds.
pub struct DeviceModel {
    pub id: Seq<char>,
    pub host: Seq<char>,
    pub port: u16,
    pub name: Seq<char>,
    pub info: Seq<char>,
    pub state: Option<LightState>,
    pub error: Option<MessageView>,
}

pub open spec fn opt_message_view(m: Option<Message>) -> Option<MessageView> {
    match m {
        Some(m) => Some(m@),
        None => None,
    }
}

impl View for Device {
    type V = DeviceModel;

    open spec fn view(&self) -> DeviceModel {
        DeviceModel {
            id: self.id@,
            host: self.host@,
            port: self.port,
            name: self.name@,
            info: self.info@,
            state: self.state,
            error: opt_message_view(self.error),
        }
    }
}

pub fn copy_message(m: &Option<Message>) -> (r: Option<Message>)
    ensures
        opt_message_view(r) == opt_message_view(*m),
{
    match m {
        Some(m) => Some(m.duplicate()),
        None => None,
    }
}

impl Device {
    /// A copy of this device.
    pub fn duplicate(&self) -> (r: Device)
        ensures
            r@ == self@,
    {
        Device {
            id: self.id.clone(),
            host: self.host.clone(),
            port: self.port,
            name: self.name.clone(),
            info: self.info.clone(),
            state: self.state,
            error: copy_message(&self.error),
        }
    }
}

impl Clone for Device {
    fn clone(&self) -> (r: Self)
        ensures
            r@ == self@,
    {
        self.duplicate()
    }
}

/// The persisted settings.
#[derive(Clone, Copy, Debug, PartialEq, Eq, Structural)]
pub struct Settings {
    pub language: Language,
    pub autostart: bool,
    pub sync: bool,
    pub initialized: bool,
}

impl Default for Settings {
    fn default() -> (s: Self)
        ensures
            s == (Settings {
                language: Language::System,
                autostart: true,
                sync: true,
                initialized: false,
            }),
    {
        Settings { language: Language::System, autostart: true, sync: true, initialized: false }
    }
}

/// Everything that is saved: the known lights and the settings.
#[derive(Debug)]
pub struct Saved {
    pub devices: Vec<Device>,
    pub settings: Settings,
}

pub open spec fn devices_view(ds: Seq<Device>) -> Seq<DeviceModel> {
    ds.map_values(|d: Device| d@)
}

impl Saved {
    /// Nothing saved yet: no lights and the default settings.
    pub fn empty() -> (s: Saved)
        ensures
            s.devices@.len() == 0,
            s.settings == (Settings {
                language: Language::System,
                autostart: true,
                sync: true,
                initialized: false,
            }),
    {
        Saved { devices: Vec::new(), settings: Settings::default() }
    }
}

impl Default for Saved {
    fn default() -> (s: Self)
        ensures
            s.devices@.len() == 0,
            s.settings == (Settings {
                language: Language::System,
                autostart: true,
                sync: true,
                initialized: false,
            }),
    {
        Saved::empty()
    }
}

/// A device as shown, with its current state and error.
#[derive(Debug)]
pub struct DeviceView {
    pub device: Device,
    pub state: Option<LightState>,
    pub error: Option<Message>,
}

/// What the controller shows: locale, lights, settings, whether a search runs, and
/// the last message.
#[derive(Debug)]
pub struct Snapshot {
    pub locale: crate::i18n::Locale,
    pub devices: Vec<DeviceView>,
    pub settings: Settings,
    pub scanning: bool,
    pub message: Option<Message>,
}

/// The lights that a change reached and those it did not, with the reason.
#[derive(Debug, Default)]
pub struct Outcome {
    pub succeeded: Vec<String>,
    pub failed: Vec<(String, Message)>,
}

/// The cause that reports the failure of the light named `name`.
pub open spec fn device_failure(name: Seq<char>, error: MessageView) -> MessageView {
    MessageView {
        key: "error.device"@,
        params: Map::empty().insert("name"@, name),
        causes: seq![error],
    }
}

impl Outcome {
    /// The message that reports a partial failure: the counts, then one cause per
    /// failed light.
    pub open spec fn message_spec(self) -> Option<MessageView> {
        if self.failed@.len() == 0 {
            None
        } else {
            Some(
                MessageView {
                    key: "error.partial"@,
                    params: Map::empty().insert("succeeded"@, decimal(self.succeeded@.len())).insert(
                        "failed"@,
                        decimal(self.failed@.len()),
                    ),
                    causes: Seq::new(
                        self.failed@.len(),
                        |i: int| device_failure(self.failed@[i].0@, self.failed@[i].1@),
                    ),
                },
            )
        }
    }

    /// `None` when every light succeeded; otherwise the partial-failure message.
    pub fn message(&self) -> (r: Option<Message>)
        ensures
            opt_message_view(r) == self.message_spec(),
    {
        if self.failed.len() == 0 {
            return None;
        }
        let mut succeeded = String::new();
        push_decimal(&mut succeeded, self.succeeded.len() as u64);
        let mut failed = String::new();
        push_decimal(&mut failed, self.failed.len() as u64);
        let mut message = Message::new("error.partial").param("succeeded", succeeded.as_str()).param(
            "failed",
            failed.as_str(),
        );
        let ghost head = message@;
        let mut i: usize = 0;
        while i < self.failed.len()
            invariant
                i <= self.failed@.len(),
                message@.key == head.key,
                message@.params == head.params,
                message@.causes.len() == i,
                forall|j: int|
                    0 <= j < i ==> (#[trigger] message@.causes[j]) == device_failure(
                        self.failed@[j].0@,
                        self.failed@[j].1@,
                    ),
            decreases self.failed@.len() - i,
        {
            let cause = Message::new("error.device").param("name", self.failed[i].0.as_str()).cause(
                self.failed[i].1.duplicate(),
            );
            assert(cause@.causes =~= seq![self.failed@[i as int].1@]);
            message = message.cause(cause);
            i = i + 1;
        }
        proof {
            let spec_m = self.message_spec()->0;
            assert(message@.causes =~= spec_m.causes);
        }
        Some(message)
    }
}

/// The identity of a light: `serialNumber`, else `macAddress`, whichever is first a
/// non-blank string, trimmed and in ASCII lower case, after the field's name and `:`.
pub open spec fn identity_spec(info: Seq<char>) -> Option<Seq<char>> {
    identity_of_members(json_object_members(info))
}

/// The identity that a parsed accessory-information object gives.
pub open spec fn identity_of_members(members: Option<Seq<(Seq<char>, Option<Seq<char>>)>>) -> Option<
    Seq<char>,
> {
    match members {
        None => None,
        Some(ms) => match identity_part(ms, "serialNumber"@) {
            Some(id) => Some(id),
            None => identity_part(ms, "macAddress"@),
        },
    }
}

pub open spec fn identity_part(ms: Seq<(Seq<char>, Option<Seq<char>>)>, key: Seq<char>) -> Option<
    Seq<char>,
> {
    match member_str(ms, key) {
        Some(v) => if trim(v).len() > 0 {
            Some(key + ":"@ + ascii_lower(trim(v)))
        } else {
            None
        },
        None => None,
    }
}

fn identity_of(members: &Vec<(String, Option<String>)>, key: &str) -> (r: Option<String>)
    ensures
        r matches Some(s) ==> identity_part(crate::json::members_view(members@), key@) == Some(s@),
        r is None ==> identity_part(crate::json::members_view(members@), key@) is None,
{
    match find_member_str(members, key) {
        None => None,
        Some(v) => {
            let t = trimmed(v.as_str());
            if t.len() == 0 {
                None
            } else {
                let mut s = owned(key);
                s.append(":");
                push_lower(&mut s, &t);
                Some(s)
            }
        },
    }
}

/// The identity that the parsed members of an accessory-information object give.
pub fn identity_from_members(members: &Option<Vec<(String, Option<String>)>>) -> (r: Option<String>)
    ensures
        match r {
            Some(s) => identity_of_members(parsed_view(*members)) == Some(s@),
            None => identity_of_members(parsed_view(*members)) is None,
        },
{
    match members {
        None => None,
        Some(ms) => match identity_of(ms, "serialNumber") {
            Some(id) => Some(id),
            None => identity_of(ms, "macAddress"),
        },
    }
}

/// The identity of the light whose accessory information is the JSON text `info`.
pub fn identity(info: &str) -> (r: Option<String>)
    ensures
        match r {
            Some(s) => identity_spec(info@) == Some(s@),
            None => identity_spec(info@) is None,
        },
{
    identity_from_members(&object_members(info))
}

/// The display name that parsed members report, if it is a string.
pub open spec fn display_name_of(members: Option<Seq<(Seq<char>, Option<Seq<char>>)>>) -> Option<
    Seq<char>,
> {
    match members {
        Some(ms) => member_str(ms, "displayName"@),
        None => None,
    }
}

/// The display name that the parsed members of accessory information report.
pub fn display_name_from_members(members: &Option<Vec<(String, Option<String>)>>) -> (r: Option<
    String,
>)
    ensures
        match r {
            Some(s) => display_name_of(parsed_view(*members)) == Some(s@),
            None => display_name_of(parsed_view(*members)) is None,
        },
{
    match members {
        Some(ms) => find_member_str(ms, "displayName"),
        None => None,
    }
}

/// The address of `path` in the light's HTTP interface; an IPv6 host goes in brackets.
pub open spec fn url_spec(host: Seq<char>, port: u16, path: Seq<char>) -> Seq<char> {
    let h = if host.contains(':') {
        "["@ + host + "]"@
    } else {
        host
    };
    "http://"@ + h + ":"@ + decimal(port as nat) + "/elgato/"@ + path
}

/// The address of `path` on device `d`.
pub fn url(d: &Device, path: &str) -> (r: String)
    ensures
        r@ == url_spec(d.host@, d.port, path@),
{
    let host = crate::chars::chars_of(d.host.as_str());
    let mut colon = false;
    let mut i: usize = 0;
    while i < host.len()
        invariant
            host@ == d.host@,
            i <= host@.len(),
            colon == exists|j: int| 0 <= j < i && host@[j] == ':',
        decreases host@.len() - i,
    {
        if host[i] == ':' {
            colon = true;
        }
        i = i + 1;
    }
    assert(colon == d.host@.contains(':'));
    let mut r = owned("http://");
    if colon {
        r.append("[");
        r.append(d.host.as_str());
        r.append("]");
    } else {
        r.append(d.host.as_str());
    }
    r.append(":");
    push_decimal(&mut r, d.port as u64);
    r.append("/elgato/");
    r.append(path);
    assert(r@ =~= url_spec(d.host@, d.port, path@));
    r
}

} // verus!

verus! {

/// `i` is the first position of a light with identity `id`.
pub open spec fn is_first_id(s: Seq<DeviceModel>, id: Seq<char>, i: int) -> bool {
    &&& 0 <= i < s.len()
    &&& s[i].id == id
    &&& forall|j: int| 0 <= j < i ==> s[j].id != id
}

/// The position of the first light with identity `id`.
pub open spec fn position_of(s: Seq<DeviceModel>, id: Seq<char>) -> Option<int> {
    if exists|i: int| is_first_id(s, id, i) {
        Some(choose|i: int| is_first_id(s, id, i))
    } else {
        None
    }
}

/// The position of the first device with identity `id`.
pub fn find_device(devices: &Vec<Device>, id: &str) -> (r: Option<usize>)
    ensures
        match r {
            Some(i) => position_of(devices_view(devices@), id@) == Some(i as int),
            None => position_of(devices_view(devices@), id@) is None,
        },
{
    let ghost s = devices_view(devices@);
    let mut i: usize = 0;
    while i < devices.len()
        invariant
            s == devices_view(devices@),
            i <= devices@.len(),
            forall|j: int| 0 <= j < i ==> s[j].id != id@,
        decreases devices@.len() - i,
    {
        assert(s[i as int] == devices@[i as int]@);
        if crate::chars::same_text(devices[i].id.as_str(), id) {
            proof {
                assert(is_first_id(s, id@, i as int));
                let k = choose|k: int| is_first_id(s, id@, k);
                if k < i {
                    assert(s[k].id != id@);
                }
                if i < k {
                    assert(s[i as int].id != id@);
                }
            }
            return Some(i);
        }
        i = i + 1;
    }
    proof {
        if exists|k: int| is_first_id(s, id@, k) {
            let k = choose|k: int| is_first_id(s, id@, k);
            assert(s[k].id == id@);
        }
    }
    None
}

/// The list after a light is found: it replaces the first light with its identity,
/// or joins the list.
pub open spec fn merged(s: Seq<DeviceModel>, d: DeviceModel) -> Seq<DeviceModel> {
    match position_of(s, d.id) {
        Some(i) => s.update(i, d),
        None => s.push(d),
    }
}

/// Records a found light: it replaces the saved light with its identity or joins the
/// list, which is then ordered by name and identity.
pub fn merge(devices: &mut Vec<Device>, device: Device)
    ensures
        final(devices)@.len() == merged(devices_view(old(devices)@), device@).len(),
        devices_view(final(devices)@).to_multiset() == merged(
            devices_view(old(devices)@),
            device@,
        ).to_multiset(),
        crate::order::stable_order_of(
            devices_view(final(devices)@),
            merged(devices_view(old(devices)@), device@),
        ),
{
    let ghost before = devices_view(devices@);
    let ghost d = device@;
    match find_device(devices, device.id.as_str()) {
        Some(i) => {
            devices.set(i, device);
            assert(devices_view(devices@) =~= before.update(i as int, d));
        },
        None => {
            devices.push(device);
            assert(devices_view(devices@) =~= before.push(d));
        },
    }
    let mut list: Vec<Device> = Vec::new();
    std::mem::swap(&mut list, devices);
    let mut sorted = crate::order::sort_devices(list);
    std::mem::swap(&mut sorted, devices);
}

/// How reading the saved configuration went.
pub enum ConfigRead {
    /// The file was read and parsed.
    Parsed(Saved),
    /// The file was read but could not be parsed; the parser's description.
    Unparsable(String),
    /// There is no file yet.
    Missing,
    /// The file could not be read; the system's description.
    Failed(String),
}

/// The message for a technical failure described by `details`.
pub open spec fn technical(details: Seq<char>) -> MessageView {
    MessageView {
        key: "error.technical"@,
        params: Map::empty().insert("details"@, details),
        causes: Seq::empty(),
    }
}

/// A message with one cause.
pub open spec fn caused(key: Seq<char>, cause: MessageView) -> MessageView {
    MessageView { key, params: Map::empty(), causes: seq![cause] }
}

/// The state that the controller decides on: the saved data, whether a search runs,
/// the last message, and whether it is shutting down.
#[derive(Debug)]
pub struct Controller {
    pub data: Saved,
    pub scanning: bool,
    pub message: Option<Message>,
    pub closing: bool,
}

/// A settings change in progress: what was asked for and what comes next.
#[derive(Debug)]
pub struct SettingsChange {
    pub old: Settings,
    pub target: Settings,
    /// The autostart value to configure, when the request changes it.
    pub changed_autostart: Option<bool>,
    pub stage: SettingsStage,
}

/// What a settings change waits for.
#[derive(Debug)]
pub enum SettingsStage {
    /// The outcome of configuring autostart.
    Configuring,
    /// The outcome of saving the new settings.
    Saving,
    /// The outcome of restoring autostart after the save failed with this error.
    RollingBack(Message),
    /// Nothing: the change is over.
    Done,
}

/// What the caller does next for a settings change.
#[derive(Debug)]
pub enum SettingsAction {
    /// Turn autostart on or off in the system.
    Configure(bool),
    /// Save the controller's data.
    Save,
    /// Report this result; the change is over.
    Finish(Result<(), Message>),
}

/// The settings that a request asks for: each given value replaces the old one.
pub open spec fn requested(
    old: Settings,
    autostart: Option<bool>,
    sync: Option<bool>,
    language: Option<Language>,
) -> Settings {
    Settings {
        language: match language {
            Some(v) => v,
            None => old.language,
        },
        autostart: match autostart {
            Some(v) => v,
            None => old.autostart,
        },
        sync: match sync {
            Some(v) => v,
            None => old.sync,
        },
        initialized: old.initialized,
    }
}

/// The autostart value to configure: the requested one, when it differs.
pub open spec fn autostart_change(old: Settings, autostart: Option<bool>) -> Option<bool> {
    match autostart {
        Some(v) => if v != old.autostart {
            Some(v)
        } else {
            None
        },
        None => None,
    }
}

pub open spec fn opt_result_view(r: Result<(), Message>) -> Result<(), MessageView> {
    match r {
        Ok(()) => Ok(()),
        Err(e) => Err(e@),
    }
}

impl Controller {
    /// A controller over `data`, idle and without a message.
    pub fn with_data(data: Saved) -> (c: Controller)
        ensures
            c.data == data,
            !c.scanning,
            c.message is None,
            !c.closing,
    {
        Controller { data, scanning: false, message: None, closing: false }
    }

    /// The controller for what reading the configuration gave: the saved data, the
    /// defaults when there is no file, or the error that stops start-up.
    pub fn new(read: ConfigRead) -> (r: Result<Controller, Message>)
        ensures
            match read {
                ConfigRead::Parsed(saved) => r matches Ok(c) && c.data == saved,
                ConfigRead::Missing => r matches Ok(c) && c.data.devices@.len() == 0
                    && c.data.settings == (Settings {
                    language: Language::System,
                    autostart: true,
                    sync: true,
                    initialized: false,
                }),
                ConfigRead::Unparsable(d) => r matches Err(e) && e@ == caused(
                    "error.config_read"@,
                    technical(d@),
                ),
                ConfigRead::Failed(d) => r matches Err(e) && e@ == technical(d@),
            },
            r matches Ok(c) ==> !c.scanning && c.message is None && !c.closing,
    {
        match read {
            ConfigRead::Parsed(saved) => Ok(Controller::with_data(saved)),
            ConfigRead::Missing => Ok(Controller::with_data(Saved::empty())),
            ConfigRead::Unparsable(d) => {
                let e = Message::new("error.config_read").cause(Message::from_details(d.as_str()));
                Err(e)
            },
            ConfigRead::Failed(d) => Err(Message::from_details(d.as_str())),
        }
    }

    /// Whether a new operation may start: not once the controller is shutting down.
    pub fn operation(&self) -> (r: Result<(), Message>)
        ensures
            r is Ok <==> !self.closing,
            r matches Err(e) ==> e@ == plain("error.shutting_down"@),
    {
        if self.closing {
            Err(Message::new("error.shutting_down"))
        } else {
            Ok(())
        }
    }

    /// Refuses every operation from now on.
    pub fn finish_operations(&mut self)
        ensures
            final(self).closing,
            final(self).data == old(self).data,
            final(self).scanning == old(self).scanning,
            final(self).message == old(self).message,
    {
        self.closing = true;
    }

    /// Starts a settings change; the action says what to do first. Once the controller
    /// shuts down, the change is refused and nothing changes.
    pub fn update_settings(
        &mut self,
        autostart: Option<bool>,
        sync: Option<bool>,
        language: Option<Language>,
    ) -> (r: (SettingsChange, SettingsAction))
        ensures
            r.0.old == old(self).data.settings,
            r.0.target == requested(old(self).data.settings, autostart, sync, language),
            r.0.changed_autostart == autostart_change(old(self).data.settings, autostart),
            final(self).data.devices == old(self).data.devices,
            final(self).scanning == old(self).scanning,
            final(self).message == old(self).message,
            final(self).closing == old(self).closing,
            old(self).closing ==> (r.1 matches SettingsAction::Finish(Err(e)) && e@ == plain(
                "error.shutting_down"@,
            )) && r.0.stage is Done && final(self).data.settings == old(self).data.settings,
            !old(self).closing ==> match r.0.changed_autostart {
                Some(v) => r.1 == SettingsAction::Configure(v) && r.0.stage is Configuring
                    && final(self).data.settings == old(self).data.settings,
                None => r.1 is Save && r.0.stage is Saving && final(self).data.settings
                    == r.0.target,
            },
    {
        let old = self.data.settings;
        let target = Settings {
            language: match language {
                Some(v) => v,
                None => old.language,
            },
            autostart: match autostart {
                Some(v) => v,
                None => old.autostart,
            },
            sync: match sync {
                Some(v) => v,
                None => old.sync,
            },
            initialized: old.initialized,
        };
        let changed = match autostart {
            Some(v) => if v != old.autostart {
                Some(v)
            } else {
                None
            },
            None => None,
        };
        if self.closing {
            return (
                SettingsChange { old, target, changed_autostart: changed, stage: SettingsStage::Done },
                SettingsAction::Finish(Err(Message::new("error.shutting_down"))),
            );
        }
        match changed {
            Some(v) => (
                SettingsChange { old, target, changed_autostart: changed, stage: SettingsStage::Configuring },
                SettingsAction::Configure(v),
            ),
            None => {
                self.data.settings = target;
                (
                    SettingsChange { old, target, changed_autostart: changed, stage: SettingsStage::Saving },
                    SettingsAction::Save,
                )
            },
        }
    }

    /// Takes the outcome of the action last asked for and says what comes next. A
    /// failed save restores the old settings and, if autostart was changed, asks to
    /// configure it back; if that fails too, autostart keeps the value the system has.
    pub fn settings_step(&mut self, change: &mut SettingsChange, outcome: Result<(), Message>) -> (r:
        SettingsAction)
        requires
            !(old(change).stage is Done),
            old(change).stage is Configuring || old(change).stage is RollingBack
                ==> old(change).changed_autostart is Some,
        ensures
            final(change).old == old(change).old,
            final(change).target == old(change).target,
            final(change).changed_autostart == old(change).changed_autostart,
            final(self).data.devices == old(self).data.devices,
            final(self).scanning == old(self).scanning,
            final(self).message == old(self).message,
            final(self).closing == old(self).closing,
            match (old(change).stage, outcome) {
                (SettingsStage::Configuring, Ok(())) => r is Save && final(change).stage is Saving
                    && final(self).data.settings == old(change).target,
                (SettingsStage::Configuring, Err(e)) => r matches SettingsAction::Finish(Err(f))
                    && f@ == e@ && final(change).stage is Done && final(self).data.settings == old(self).data.settings,
                (SettingsStage::Saving, Ok(())) => r matches SettingsAction::Finish(Ok(()))
                    && final(change).stage is Done && final(self).data.settings == old(self).data.settings,
                (SettingsStage::Saving, Err(e)) => final(self).data.settings == old(change).old
                    && match old(change).changed_autostart {
                    Some(_) => r == SettingsAction::Configure(old(change).old.autostart)
                        && (final(change).stage matches SettingsStage::RollingBack(f) && f@ == e@),
                    None => r matches SettingsAction::Finish(Err(f)) && f@ == e@ && final(change).stage is Done,
                },
                (SettingsStage::RollingBack(save_error), Ok(())) => r matches SettingsAction::Finish(
                    Err(f),
                ) && f@ == save_error@ && final(change).stage is Done && final(self).data.settings
                    == old(self).data.settings,
                (SettingsStage::RollingBack(save_error), Err(e)) => r matches SettingsAction::Finish(
                    Err(f),
                ) && f@ == (MessageView { causes: save_error@.causes.push(e@), ..save_error@ })
                    && final(change).stage is Done && final(self).data.settings == (Settings {
                    autostart: old(change).changed_autostart->0,
                    ..old(self).data.settings
                }),
                (SettingsStage::Done, _) => false,
            },
    {
        let mut stage = SettingsStage::Done;
        std::mem::swap(&mut stage, &mut change.stage);
        match stage {
            SettingsStage::Configuring => match outcome {
                Ok(()) => {
                    self.data.settings = change.target;
                    change.stage = SettingsStage::Saving;
                    SettingsAction::Save
                },
                Err(e) => SettingsAction::Finish(Err(e)),
            },
            SettingsStage::Saving => match outcome {
                Ok(()) => SettingsAction::Finish(Ok(())),
                Err(e) => {
                    self.data.settings = change.old;
                    match change.changed_autostart {
                        Some(_) => {
                            change.stage = SettingsStage::RollingBack(e);
                            SettingsAction::Configure(change.old.autostart)
                        },
                        None => SettingsAction::Finish(Err(e)),
                    }
                },
            },
            SettingsStage::RollingBack(save_error) => match outcome {
                Ok(()) => SettingsAction::Finish(Err(save_error)),
                Err(e) => {
                    let enabled = match change.changed_autostart {
                        Some(v) => v,
                        None => self.data.settings.autostart,
                    };
                    self.data.settings.autostart = enabled;
                    SettingsAction::Finish(Err(save_error.cause(e)))
                },
            },
            SettingsStage::Done => SettingsAction::Finish(Ok(())),
        }
    }
}

} // verus!

verus! {

/// The identities of the lights that answered last time: no error and a known state.
pub open spec fn online_ids(s: Seq<DeviceModel>) -> Seq<Seq<char>>
    decreases s.len(),
{
    if s.len() == 0 {
        Seq::empty()
    } else if s.last().error is None && s.last().state is Some {
        online_ids(s.drop_last()).push(s.last().id)
    } else {
        online_ids(s.drop_last())
    }
}

pub open spec fn strings_view(v: Seq<String>) -> Seq<Seq<char>> {
    v.map_values(|s: String| s@)
}

/// The name a light reports in its accessory information, if it is a string.
pub open spec fn display_name(info: Seq<char>) -> Option<Seq<char>> {
    display_name_of(json_object_members(info))
}

/// A name the user may give a light: not blank, and at most 128 bytes in UTF-8.
pub open spec fn acceptable_name(name: &str) -> bool {
    trim(name@).len() > 0 && name.len() <= 128
}

/// Whether `name` may be given to a light.
pub fn valid_name(name: &str) -> (r: bool)
    ensures
        r == acceptable_name(name),
{
    let t = trimmed(name);
    t.len() > 0 && name.len() <= 128
}

/// A newly found light: the reported display name when it is a non-empty string,
/// else `Key Light`; no state and no error yet.
pub open spec fn found_device(
    id: Seq<char>,
    host: Seq<char>,
    port: u16,
    info: Seq<char>,
    reported: Option<Seq<char>>,
) -> DeviceModel {
    DeviceModel {
        id,
        host,
        port,
        name: match reported {
            Some(n) => if n.len() > 0 {
                n
            } else {
                "Key Light"@
            },
            None => "Key Light"@,
        },
        info,
        state: None,
        error: None,
    }
}

/// The device's state after a reading: a state clears the error, an error keeps the
/// last state.
pub open spec fn after_reading(d: DeviceModel, result: Result<LightState, MessageView>) -> DeviceModel {
    match result {
        Ok(s) => DeviceModel { state: Some(s), error: None, ..d },
        Err(e) => DeviceModel { error: Some(e), ..d },
    }
}

pub open spec fn reading_view(r: Result<LightState, Message>) -> Result<LightState, MessageView> {
    match r {
        Ok(s) => Ok(s),
        Err(e) => Err(e@),
    }
}

impl Device {
    /// A device found at `host`:`port` whose accessory information is `info`: its
    /// identity comes from the information, its name is the reported display name
    /// when that is a non-empty string, else `Key Light`.
    pub fn from_info(host: String, port: u16, info: String) -> (r: Result<Device, Message>)
        ensures
            match identity_spec(info@) {
                None => r matches Err(e) && e@ == plain("error.no_identity"@),
                Some(id) => r matches Ok(d) && d@ == found_device(
                    id,
                    host@,
                    port,
                    info@,
                    display_name(info@),
                ),
            },
    {
        let members = object_members(info.as_str());
        Device::from_parsed(host, port, info, &members)
    }

    /// The device that accessory information `info`, parsed into `members`, describes.
    pub fn from_parsed(
        host: String,
        port: u16,
        info: String,
        members: &Option<Vec<(String, Option<String>)>>,
    ) -> (r: Result<Device, Message>)
        ensures
            match identity_of_members(parsed_view(*members)) {
                None => r matches Err(e) && e@ == plain("error.no_identity"@),
                Some(id) => r matches Ok(d) && d@ == found_device(
                    id,
                    host@,
                    port,
                    info@,
                    display_name_of(parsed_view(*members)),
                ),
            },
    {
        let id = match identity_from_members(members) {
            Some(id) => id,
            None => {
                return Err(Message::new("error.no_identity"));
            },
        };
        let name = match display_name_from_members(members) {
            Some(n) => if n.unicode_len() > 0 {
                n
            } else {
                owned("Key Light")
            },
            None => owned("Key Light"),
        };
        Ok(Device { id, host, port, name, info, state: None, error: None })
    }

    /// Records the outcome of reading the light.
    pub fn take_reading(&mut self, result: Result<LightState, Message>)
        ensures
            final(self)@ == after_reading(old(self)@, reading_view(result)),
    {
        match result {
            Ok(s) => {
                self.state = Some(s);
                self.error = None;
            },
            Err(e) => {
                self.error = Some(e);
            },
        }
    }
}

/// The state a light reported, if it reported one and its values are in range.
pub fn confirmed_state(lights: &Vec<LightState>) -> (r: Result<LightState, Message>)
    ensures
        lights@.len() == 0 ==> (r matches Err(e) && e@ == plain("error.no_lights"@)),
        lights@.len() > 0 ==> match r {
            Ok(s) => s == lights@[0] && (Patch {
                on: Some(s.on),
                brightness: Some(s.brightness),
                temperature: Some(s.temperature),
            }).valid(),
            Err(e) => e@ == invalid_setting() && !(Patch {
                on: Some(lights@[0].on),
                brightness: Some(lights@[0].brightness),
                temperature: Some(lights@[0].temperature),
            }).valid(),
        },
{
    if lights.len() == 0 {
        return Err(Message::new("error.no_lights"));
    }
    let state = lights[0];
    let mut check = state;
    let patch = Patch {
        on: Some(state.on),
        brightness: Some(state.brightness),
        temperature: Some(state.temperature),
    };
    match patch.apply(&mut check) {
        Ok(()) => Ok(state),
        Err(e) => Err(e),
    }
}

/// Whether a refresh reads this light: always when forced; otherwise not a light in
/// error that was tried less than 30 seconds ago.
pub fn should_poll(force: bool, has_error: bool, since_attempt_ms: Option<u64>) -> (r: bool)
    ensures
        r == poll_due(force, has_error, since_attempt_ms),
{
    let recent = match since_attempt_ms {
        Some(t) => t < 30000,
        None => false,
    };
    !(!force && has_error && recent)
}

/// Adds an endpoint found by the search unless it was already found.
pub fn add_found(found: &mut Vec<(String, u16)>, host: String, port: u16)
    ensures
        (exists|i: int| 0 <= i < old(found)@.len() && old(found)@[i].0@ == host@ && old(found)@[i].1 == port)
            ==> final(found)@ == old(found)@,
        !(exists|i: int| 0 <= i < old(found)@.len() && old(found)@[i].0@ == host@ && old(found)@[i].1 == port)
            ==> final(found)@ == old(found)@.push((host, port)),
{
    let mut i: usize = 0;
    while i < found.len()
        invariant
            i <= found@.len(),
            forall|j: int| 0 <= j < i ==> !(found@[j].0@ == host@ && found@[j].1 == port),
        decreases found@.len() - i,
    {
        if found[i].1 == port && crate::chars::same_text(found[i].0.as_str(), host.as_str()) {
            return;
        }
        i = i + 1;
    }
    found.push((host, port));
}

/// Where writing the saved data failed.
pub enum SaveStep {
    /// Turning the data into JSON.
    Encode,
    /// The configuration file has no directory.
    NoDirectory,
    /// Creating the directory.
    CreateDirectory,
    /// Writing the temporary file.
    Write,
    /// Moving the temporary file into place.
    Replace,
}

/// The message for a failed save at `step`, with the system's description.
pub fn save_error(step: SaveStep, details: &str) -> (r: Message)
    ensures
        r@ == match step {
            SaveStep::NoDirectory => plain("error.config_directory"@),
            SaveStep::Replace => caused("error.config_save"@, technical(details@)),
            _ => technical(details@),
        },
{
    match step {
        SaveStep::NoDirectory => Message::new("error.config_directory"),
        SaveStep::Replace => Message::new("error.config_save").cause(Message::from_details(details)),
        _ => Message::from_details(details),
    }
}

impl Outcome {
    /// The outcome of a change that could not start.
    pub fn refused(error: Message) -> (r: Outcome)
        ensures
            r.succeeded@.len() == 0,
            r.failed@.len() == 1,
            r.failed@[0].0@ == Seq::<char>::empty(),
            r.failed@[0].1@ == error@,
    {
        let mut failed: Vec<(String, Message)> = Vec::new();
        failed.push((String::new(), error));
        Outcome { succeeded: Vec::new(), failed }
    }

    /// Records how the change went for the light `id`.
    pub fn record(&mut self, id: String, result: Result<(), Message>)
        ensures
            result is Ok ==> final(self).succeeded@ == old(self).succeeded@.push(id) && final(self).failed@ == old(self).failed@,
            result matches Err(e) ==> final(self).failed@ == old(self).failed@.push((id, e))
                && final(self).succeeded@ == old(self).succeeded@,
    {
        match result {
            Ok(()) => self.succeeded.push(id),
            Err(e) => self.failed.push((id, e)),
        }
    }
}

/// The message after a search that could not add every light: its errors as causes.
pub fn discovery_message(errors: Vec<Message>) -> (r: Option<Message>)
    ensures
        errors@.len() == 0 ==> r is None,
        errors@.len() > 0 ==> (r matches Some(m) && m@ == (MessageView {
            key: "error.discovery"@,
            params: Map::empty(),
            causes: errors@.map_values(|e: Message| e@),
        })),
{
    if errors.len() == 0 {
        return None;
    }
    let ghost ev = errors@.map_values(|e: Message| e@);
    let m = Message { key: owned("error.discovery"), params: Vec::new(), causes: errors };
    assert(m@.causes =~= ev);
    assert(crate::json::pairs_view(m.params@) =~= Seq::<(Seq<char>, Seq<char>)>::empty());
    Some(m)
}

} // verus!

verus! {

impl Controller {
    /// What the controller shows now; the locale follows the language setting on
    /// this system.
    pub fn snapshot(&self) -> (s: Snapshot)
        ensures
            exists|system: Option<Seq<char>>|
                s.locale == crate::i18n::language_locale(self.data.settings.language, system),
            s.settings == self.data.settings,
            s.scanning == self.scanning,
            opt_message_view(s.message) == opt_message_view(self.message),
            s.devices@.len() == self.data.devices@.len(),
            forall|i: int|
                0 <= i < s.devices@.len() ==> (#[trigger] s.devices@[i]).device@
                    == self.data.devices@[i]@ && s.devices@[i].state == self.data.devices@[i].state
                    && opt_message_view(s.devices@[i].error) == opt_message_view(
                    self.data.devices@[i].error,
                ),
    {
        let mut devices: Vec<DeviceView> = Vec::new();
        let mut i: usize = 0;
        while i < self.data.devices.len()
            invariant
                i <= self.data.devices@.len(),
                devices@.len() == i,
                forall|j: int|
                    0 <= j < i ==> (#[trigger] devices@[j]).device@ == self.data.devices@[j]@
                        && devices@[j].state == self.data.devices@[j].state && opt_message_view(
                        devices@[j].error,
                    ) == opt_message_view(self.data.devices@[j].error),
            decreases self.data.devices@.len() - i,
        {
            let d = &self.data.devices[i];
            devices.push(
                DeviceView { device: d.duplicate(), state: d.state, error: copy_message(&d.error) },
            );
            i = i + 1;
        }
        Snapshot {
            locale: self.data.settings.language.current(),
            devices,
            settings: self.data.settings,
            scanning: self.scanning,
            message: copy_message(&self.message),
        }
    }

    /// The lights a change goes to: every light that answered, when no light is named
    /// or when synchronisation is asked for and enabled; otherwise the named light.
    pub fn targets(&self, id: Option<String>, sync: bool) -> (r: Vec<String>)
        ensures
            (id is None || (sync && self.data.settings.sync)) ==> strings_view(r@) == online_ids(
                devices_view(self.data.devices@),
            ),
            (id is None || (sync && self.data.settings.sync)) ==> forall|x: Seq<char>|
                strings_view(r@).contains(x) <==> exists|i: int|
                    0 <= i < self.data.devices@.len() && (#[trigger] devices_view(
                        self.data.devices@,
                    )[i]).id == x && devices_view(self.data.devices@)[i].error is None
                        && devices_view(self.data.devices@)[i].state is Some,
            !(id is None || (sync && self.data.settings.sync)) ==> r@ == seq![id->0],
    {
        if id.is_none() || (sync && self.data.settings.sync) {
            let ghost all = devices_view(self.data.devices@);
            let mut r: Vec<String> = Vec::new();
            let mut i: usize = 0;
            while i < self.data.devices.len()
                invariant
                    all == devices_view(self.data.devices@),
                    i <= all.len(),
                    strings_view(r@) == online_ids(all.take(i as int)),
                decreases all.len() - i,
            {
                let d = &self.data.devices[i];
                assert(all.take(i + 1).drop_last() =~= all.take(i as int));
                assert(all.take(i + 1).last() == d@);
                if d.error.is_none() && d.state.is_some() {
                    r.push(d.id.clone());
                    assert(strings_view(r@) =~= online_ids(all.take(i as int)).push(d.id@));
                }
                i = i + 1;
            }
            assert(all.take(all.len() as int) =~= all);
            proof {
                crate::laws::answered_lights_have_no_error(all);
            }
            r
        } else {
            let mut r: Vec<String> = Vec::new();
            match id {
                Some(id) => r.push(id),
                None => {},
            }
            assert(r@ =~= seq![id->0]);
            r
        }
    }

    /// A copy of the first light with identity `id`.
    pub fn device(&self, id: &str) -> (r: Result<Device, Message>)
        ensures
            match position_of(devices_view(self.data.devices@), id@) {
                Some(i) => r matches Ok(d) && d@ == self.data.devices@[i]@,
                None => r matches Err(e) && e@ == plain("error.unknown_light"@),
            },
    {
        match find_device(&self.data.devices, id) {
            Some(i) => Ok(self.data.devices[i].duplicate()),
            None => Err(Message::new("error.unknown_light")),
        }
    }

    /// Records the outcome of reading or writing the light `id`, if it is known.
    pub fn record(&mut self, id: &str, result: Result<LightState, Message>)
        ensures
            final(self).data.settings == old(self).data.settings,
            final(self).scanning == old(self).scanning,
            final(self).message == old(self).message,
            final(self).closing == old(self).closing,
            devices_view(final(self).data.devices@) == recorded(
                devices_view(old(self).data.devices@),
                id@,
                reading_view(result),
            ),
    {
        let ghost before = devices_view(self.data.devices@);
        match find_device(&self.data.devices, id) {
            Some(i) => {
                let mut list: Vec<Device> = Vec::new();
                std::mem::swap(&mut list, &mut self.data.devices);
                let mut d = list.remove(i);
                d.take_reading(result);
                let ghost nd = d@;
                list.insert(i, d);
                assert(devices_view(list@) =~= before.update(i as int, nd));
                std::mem::swap(&mut list, &mut self.data.devices);
            },
            None => {},
        }
    }

    /// Takes the first light with identity `id` out of the list; its position and the
    /// light let a failed save put it back. Refused once the controller shuts down.
    pub fn remove(&mut self, id: &str) -> (r: Result<Option<(usize, Device)>, Message>)
        ensures
            final(self).data.settings == old(self).data.settings,
            final(self).scanning == old(self).scanning,
            final(self).message == old(self).message,
            final(self).closing == old(self).closing,
            old(self).closing ==> (r matches Err(e) && e@ == plain("error.shutting_down"@))
                && final(self).data.devices == old(self).data.devices,
            !old(self).closing ==> match position_of(devices_view(old(self).data.devices@), id@) {
                Some(i) => (r matches Ok(Some(p)) && p.0 == i && p.1@ == old(self).data.devices@[i]@)
                    && devices_view(final(self).data.devices@) == devices_view(
                    old(self).data.devices@,
                ).remove(i),
                None => (r matches Ok(None)) && devices_view(final(self).data.devices@)
                    == devices_view(old(self).data.devices@),
            },
    {
        if self.closing {
            return Err(Message::new("error.shutting_down"));
        }
        let ghost before = devices_view(self.data.devices@);
        match find_device(&self.data.devices, id) {
            Some(i) => {
                let d = self.data.devices.remove(i);
                assert(devices_view(self.data.devices@) =~= before.remove(i as int));
                Ok(Some((i, d)))
            },
            None => Ok(None),
        }
    }

    /// Ends a removal once the data was saved: a failed save puts the light back at its
    /// position and reports the error.
    pub fn settle_removal(&mut self, removed: (usize, Device), saved: Result<(), Message>) -> (r:
        Result<(), Message>)
        requires
            removed.0 <= old(self).data.devices@.len(),
        ensures
            final(self).data.settings == old(self).data.settings,
            final(self).scanning == old(self).scanning,
            final(self).message == old(self).message,
            final(self).closing == old(self).closing,
            opt_result_view(r) == opt_result_view(saved),
            saved is Ok ==> final(self).data.devices == old(self).data.devices,
            saved is Err ==> devices_view(final(self).data.devices@) == devices_view(
                old(self).data.devices@,
            ).insert(removed.0 as int, removed.1@),
    {
        match saved {
            Ok(()) => Ok(()),
            Err(e) => {
                self.restore(removed.0, removed.1);
                Err(e)
            },
        }
    }

    /// Puts a removed light back at its position.
    pub fn restore(&mut self, index: usize, device: Device)
        requires
            index <= old(self).data.devices@.len(),
        ensures
            final(self).data.settings == old(self).data.settings,
            final(self).scanning == old(self).scanning,
            final(self).message == old(self).message,
            final(self).closing == old(self).closing,
            devices_view(final(self).data.devices@) == devices_view(old(self).data.devices@).insert(
                index as int,
                device@,
            ),
    {
        let ghost before = devices_view(self.data.devices@);
        let ghost dv = device@;
        self.data.devices.insert(index, device);
        assert(devices_view(self.data.devices@) =~= before.insert(index as int, dv));
    }

    /// Records a light's new accessory information after a rename: its name becomes
    /// the reported display name, or the requested one when none is reported.
    pub fn rename(&mut self, id: &str, name: &str, info: String)
        ensures
            final(self).data.settings == old(self).data.settings,
            final(self).scanning == old(self).scanning,
            final(self).message == old(self).message,
            final(self).closing == old(self).closing,
            devices_view(final(self).data.devices@) == match position_of(
                devices_view(old(self).data.devices@),
                id@,
            ) {
                Some(i) => devices_view(old(self).data.devices@).update(
                    i,
                    DeviceModel {
                        name: match display_name(info@) {
                            Some(n) => n,
                            None => name@,
                        },
                        info: info@,
                        ..old(self).data.devices@[i]@
                    },
                ),
                None => devices_view(old(self).data.devices@),
            },
    {
        let ghost before = devices_view(self.data.devices@);
        match find_device(&self.data.devices, id) {
            Some(i) => {
                let reported = display_name_from_members(&object_members(info.as_str()));
                let mut list: Vec<Device> = Vec::new();
                std::mem::swap(&mut list, &mut self.data.devices);
                let mut d = list.remove(i);
                d.name = match reported {
                    Some(n) => n,
                    None => owned(name),
                };
                d.info = info;
                let ghost nd = d@;
                list.insert(i, d);
                assert(devices_view(list@) =~= before.update(i as int, nd));
                std::mem::swap(&mut list, &mut self.data.devices);
            },
            None => {},
        }
    }

    /// Adds or updates a light that was found, keeping the list in order.
    pub fn add_device(&mut self, device: Device)
        ensures
            final(self).data.settings == old(self).data.settings,
            final(self).scanning == old(self).scanning,
            final(self).message == old(self).message,
            final(self).closing == old(self).closing,
            final(self).data.devices@.len() == merged(devices_view(old(self).data.devices@), device@).len(),
            devices_view(final(self).data.devices@).to_multiset() == merged(
                devices_view(old(self).data.devices@),
                device@,
            ).to_multiset(),
            crate::order::stable_order_of(
                devices_view(final(self).data.devices@),
                merged(devices_view(old(self).data.devices@), device@),
            ),
    {
        merge(&mut self.data.devices, device);
    }

    /// Starts a search unless one is running; `false` means one already runs.
    pub fn discover(&mut self) -> (started: bool)
        ensures
            started == !old(self).scanning,
            final(self).scanning,
            final(self).data == old(self).data,
            final(self).message == old(self).message,
            final(self).closing == old(self).closing,
    {
        if self.scanning {
            return false;
        }
        self.scanning = true;
        true
    }

    /// Ends a search; a failed one leaves a message with its error as cause.
    pub fn end_scan(&mut self, result: Result<(), Message>) -> (r: Result<(), Message>)
        ensures
            !final(self).scanning,
            final(self).data == old(self).data,
            final(self).closing == old(self).closing,
            opt_result_view(r) == opt_result_view(result),
            result is Ok ==> final(self).message == old(self).message,
            result matches Err(e) ==> opt_message_view(final(self).message) == Some(
                caused("error.scan"@, e@),
            ),
    {
        self.scanning = false;
        match result {
            Ok(()) => Ok(()),
            Err(e) => {
                self.message = Some(Message::new("error.scan").cause(e.duplicate()));
                Err(e)
            },
        }
    }
}

} // verus!

verus! {

impl Controller {
    /// Completes the first start: autostart was enabled in the system, or the error is
    /// kept and autostart is recorded as off; either way the first start is over.
    pub fn first_run(&mut self, autostart: Result<(), Message>)
        ensures
            final(self).data.devices == old(self).data.devices,
            final(self).scanning == old(self).scanning,
            final(self).closing == old(self).closing,
            final(self).data.settings.initialized,
            final(self).data.settings.language == old(self).data.settings.language,
            final(self).data.settings.sync == old(self).data.settings.sync,
            match autostart {
                Ok(()) => final(self).data.settings.autostart == old(self).data.settings.autostart
                    && final(self).message == old(self).message,
                Err(e) => !final(self).data.settings.autostart && opt_message_view(
                    final(self).message,
                ) == Some(caused("error.autostart"@, e@)),
            },
    {
        match autostart {
            Ok(()) => {},
            Err(e) => {
                self.message = Some(Message::new("error.autostart").cause(e));
                self.data.settings.autostart = false;
            },
        }
        self.data.settings.initialized = true;
    }
}

} // verus!

verus! {

/// Whether a refresh reads a light: always when forced; otherwise not a light in
/// error that was tried less than 30 seconds ago.
pub open spec fn poll_due(force: bool, has_error: bool, since_attempt_ms: Option<u64>) -> bool {
    force || !has_error || match since_attempt_ms {
        Some(t) => t >= 30000,
        None => true,
    }
}

/// How long ago the light `id` was last tried, from a list of identities and ages in
/// milliseconds; a later entry replaces an earlier one.
pub open spec fn age_of(attempts: Seq<(String, u64)>, id: Seq<char>) -> Option<u64>
    decreases attempts.len(),
{
    if attempts.len() == 0 {
        None
    } else if attempts.last().0@ == id {
        Some(attempts.last().1)
    } else {
        age_of(attempts.drop_last(), id)
    }
}

/// The identities of the lights a refresh reads, in list order.
pub open spec fn due_ids(s: Seq<DeviceModel>, force: bool, attempts: Seq<(String, u64)>) -> Seq<
    Seq<char>,
>
    decreases s.len(),
{
    if s.len() == 0 {
        Seq::empty()
    } else if poll_due(force, s.last().error is Some, age_of(attempts, s.last().id)) {
        due_ids(s.drop_last(), force, attempts).push(s.last().id)
    } else {
        due_ids(s.drop_last(), force, attempts)
    }
}

fn age(attempts: &Vec<(String, u64)>, id: &str) -> (r: Option<u64>)
    ensures
        r == age_of(attempts@, id@),
{
    let mut i = attempts.len();
    assert(attempts@.take(i as int) =~= attempts@);
    while i > 0
        invariant
            i <= attempts@.len(),
            age_of(attempts@, id@) == age_of(attempts@.take(i as int), id@),
        decreases i,
    {
        assert(attempts@.take(i as int).drop_last() =~= attempts@.take(i - 1));
        if crate::chars::same_text(attempts[i - 1].0.as_str(), id) {
            return Some(attempts[i - 1].1);
        }
        i = i - 1;
    }
    None
}

/// The light with identity `id`, or the error for an unknown light.
pub open spec fn lookup_spec(s: Seq<DeviceModel>, id: Seq<char>) -> Result<DeviceModel, MessageView> {
    match position_of(s, id) {
        Some(i) => Ok(s[i]),
        None => Err(plain("error.unknown_light"@)),
    }
}

pub open spec fn lookup_view(r: Result<Device, Message>) -> Result<DeviceModel, MessageView> {
    match r {
        Ok(d) => Ok(d@),
        Err(e) => Err(e@),
    }
}

pub open spec fn plan_view(p: Seq<(String, Result<Device, Message>)>) -> Seq<
    (Seq<char>, Result<DeviceModel, MessageView>),
> {
    p.map_values(|x: (String, Result<Device, Message>)| (x.0@, lookup_view(x.1)))
}

pub open spec fn plan_ids(p: Seq<(Seq<char>, Result<DeviceModel, MessageView>)>) -> Seq<Seq<char>> {
    p.map_values(|x: (Seq<char>, Result<DeviceModel, MessageView>)| x.0)
}

/// The lights of a plan that could not be looked up, each with its error, in order.
pub open spec fn unfound(p: Seq<(Seq<char>, Result<DeviceModel, MessageView>)>) -> Seq<
    (Seq<char>, Result<LightState, MessageView>),
>
    decreases p.len(),
{
    if p.len() == 0 {
        Seq::empty()
    } else {
        match p.last().1 {
            Ok(_) => unfound(p.drop_last()),
            Err(e) => unfound(p.drop_last()).push((p.last().0, Err(e))),
        }
    }
}

impl Controller {
    /// The plan of a change: the lights it goes to, sorted and without repeats, each
    /// with the light to write or the error of looking it up; once the controller shuts
    /// down, the outcome that refuses the change.
    pub fn change(&self, ids: Vec<String>) -> (r: Result<Vec<(String, Result<Device, Message>)>, Outcome>)
        ensures
            self.closing ==> (r matches Err(o) && o.succeeded@.len() == 0 && o.failed@.len() == 1
                && o.failed@[0].0@ == Seq::<char>::empty() && o.failed@[0].1@ == plain(
                "error.shutting_down"@,
            )),
            !self.closing ==> (r matches Ok(p) && crate::order::strictly_ordered(
                plan_ids(plan_view(p@)),
            ) && (forall|x: Seq<char>|
                plan_ids(plan_view(p@)).contains(x) <==> strings_view(ids@).contains(x)) && (
            forall|i: int|
                0 <= i < p@.len() ==> #[trigger] plan_view(p@)[i].1 == lookup_spec(
                    devices_view(self.data.devices@),
                    plan_view(p@)[i].0,
                ))),
    {
        match self.operation() {
            Err(e) => Err(Outcome::refused(e)),
            Ok(()) => {
                let targets = crate::order::sorted_unique(ids);
                let ghost tv = strings_view(targets@);
                let ghost all = devices_view(self.data.devices@);
                let mut p: Vec<(String, Result<Device, Message>)> = Vec::new();
                let mut i: usize = 0;
                while i < targets.len()
                    invariant
                        tv == strings_view(targets@),
                        all == devices_view(self.data.devices@),
                        i <= targets@.len(),
                        plan_ids(plan_view(p@)) == tv.take(i as int),
                        forall|k: int|
                            0 <= k < p@.len() ==> #[trigger] plan_view(p@)[k].1 == lookup_spec(
                                all,
                                plan_view(p@)[k].0,
                            ),
                    decreases targets@.len() - i,
                {
                    let found = self.device(targets[i].as_str());
                    let ghost before = plan_view(p@);
                    p.push((targets[i].clone(), found));
                    assert(plan_view(p@) =~= before.push((tv[i as int], lookup_view(found))));
                    assert(plan_ids(before.push((tv[i as int], lookup_view(found)))) =~= plan_ids(
                        before,
                    ).push(tv[i as int]));
                    assert(tv.take(i + 1) =~= tv.take(i as int).push(tv[i as int]));
                    i = i + 1;
                }
                assert(tv.take(targets@.len() as int) =~= tv);
                Ok(p)
            },
        }
    }

    /// The lights a refresh reads: every light when forced; otherwise not the lights in
    /// error that were tried less than 30 seconds ago. `attempts` holds, per identity,
    /// the milliseconds since the last attempt.
    pub fn refresh(&self, force: bool, attempts: &Vec<(String, u64)>) -> (r: Vec<String>)
        ensures
            strings_view(r@) == due_ids(devices_view(self.data.devices@), force, attempts@),
            forall|x: Seq<char>|
                strings_view(r@).contains(x) <==> exists|i: int|
                    0 <= i < self.data.devices@.len() && (#[trigger] devices_view(
                        self.data.devices@,
                    )[i]).id == x && (force || devices_view(self.data.devices@)[i].error is None
                        || age_of(attempts@, x) is None || age_of(attempts@, x)->0 >= 30000),
    {
        let ghost all = devices_view(self.data.devices@);
        let mut r: Vec<String> = Vec::new();
        let mut i: usize = 0;
        while i < self.data.devices.len()
            invariant
                all == devices_view(self.data.devices@),
                i <= all.len(),
                strings_view(r@) == due_ids(all.take(i as int), force, attempts@),
            decreases all.len() - i,
        {
            let d = &self.data.devices[i];
            assert(all.take(i + 1).drop_last() =~= all.take(i as int));
            assert(all.take(i + 1).last() == d@);
            let since = age(attempts, d.id.as_str());
            if should_poll(force, d.error.is_some(), since) {
                r.push(d.id.clone());
                assert(strings_view(r@) =~= due_ids(all.take(i as int), force, attempts@).push(d.id@));
            }
            i = i + 1;
        }
        assert(all.take(all.len() as int) =~= all);
        proof {
            crate::laws::refresh_backs_off_lights_in_error(all, force, attempts@);
        }
        r
    }
}

} // verus!

verus! {

/// The list after recording a reading of the light `id`: its first light with that
/// identity takes the reading; an unknown identity changes nothing.
pub open spec fn recorded(
    s: Seq<DeviceModel>,
    id: Seq<char>,
    result: Result<LightState, MessageView>,
) -> Seq<DeviceModel> {
    match position_of(s, id) {
        Some(i) => s.update(i, after_reading(s[i], result)),
        None => s,
    }
}

impl Controller {
    /// The light to rename: refused when shutting down, then when the name is blank or
    /// longer than 128 bytes, then when the light is unknown. Nothing is changed, and
    /// no request is due unless this succeeds.
    pub fn begin_rename(&self, id: &str, name: &str) -> (r: Result<Device, Message>)
        ensures
            self.closing ==> (r matches Err(e) && e@ == plain("error.shutting_down"@)),
            !self.closing && !acceptable_name(name) ==> (r matches Err(e) && e@ == plain(
                "error.name"@,
            )),
            !self.closing && acceptable_name(name) ==> match position_of(
                devices_view(self.data.devices@),
                id@,
            ) {
                Some(i) => r matches Ok(d) && d@ == self.data.devices@[i]@,
                None => r matches Err(e) && e@ == plain("error.unknown_light"@),
            },
    {
        self.operation()?;
        if !valid_name(name) {
            return Err(Message::new("error.name"));
        }
        self.device(id)
    }

    /// The light to identify: refused when shutting down, or when the light is unknown.
    pub fn identify(&self, id: &str) -> (r: Result<Device, Message>)
        ensures
            self.closing ==> (r matches Err(e) && e@ == plain("error.shutting_down"@)),
            !self.closing ==> match position_of(devices_view(self.data.devices@), id@) {
                Some(i) => r matches Ok(d) && d@ == self.data.devices@[i]@,
                None => r matches Err(e) && e@ == plain("error.unknown_light"@),
            },
    {
        self.operation()?;
        self.device(id)
    }
}

/// The `i`-th state of an identification blink: on, at 50 % on even steps and 0 % on
/// odd ones, keeping the colour temperature.
pub open spec fn blink_state(original: LightState, i: int) -> LightState {
    LightState {
        on: 1,
        brightness: if i % 2 == 0 {
            50
        } else {
            0
        },
        temperature: original.temperature,
    }
}

/// Where an identification stands.
#[derive(Debug, PartialEq, Eq, Structural)]
pub enum IdentifyStage {
    /// Waiting for the outcome of blink write number `0`.
    Blinking(usize),
    /// Waiting for the outcome of restore attempt number `0` (1 or 2).
    Restoring(usize),
    Done,
}

/// An identification of the light `id` in progress.
#[derive(Debug)]
pub struct Identification {
    pub id: String,
    /// The state to restore.
    pub original: LightState,
    /// The error of the blink write that failed, if one did.
    pub failure: Option<Message>,
    pub stage: IdentifyStage,
}

/// What to do next for an identification.
#[derive(Debug)]
pub enum IdentifyAction {
    /// Write this blink state, then pause half a second if it succeeded.
    Blink(LightState),
    /// Write the original state back.
    Restore(LightState),
    /// Report this result; the identification is over.
    Finish(Result<(), Message>),
}

impl Identification {
    /// Starts identifying the light `id`, whose state was `original`: first blink.
    pub fn start(id: String, original: LightState) -> (r: (Identification, IdentifyAction))
        ensures
            r.0.id@ == id@,
            r.0.original == original,
            r.0.failure is None,
            r.0.stage == IdentifyStage::Blinking(0),
            r.1 matches IdentifyAction::Blink(s) && s == blink_state(original, 0),
    {
        let mut first = original;
        first.on = 1;
        first.brightness = 50;
        (
            Identification { id, original, failure: None, stage: IdentifyStage::Blinking(0) },
            IdentifyAction::Blink(first),
        )
    }
}

impl Controller {
    /// Takes the outcome of the write last asked for. The six blinks run until one
    /// fails; then the original state is written back, once more if that fails, and
    /// the last restore outcome is recorded for the light. The result is the failed
    /// restore (as cause of `error.restore`), else the failed blink, else success.
    pub fn identify_step(&mut self, ident: &mut Identification, outcome: Result<LightState, Message>) -> (r:
        IdentifyAction)
        requires
            old(ident).stage matches IdentifyStage::Blinking(i) ==> i < 6,
            old(ident).stage matches IdentifyStage::Restoring(n) ==> 1 <= n <= 2,
            old(ident).stage != IdentifyStage::Done,
        ensures
            final(ident).id == old(ident).id,
            final(ident).original == old(ident).original,
            final(self).data.settings == old(self).data.settings,
            final(self).scanning == old(self).scanning,
            final(self).message == old(self).message,
            final(self).closing == old(self).closing,
            match (old(ident).stage, outcome) {
                (IdentifyStage::Blinking(i), Ok(_)) => final(self).data.devices
                    == old(self).data.devices && opt_message_view(final(ident).failure)
                    == opt_message_view(old(ident).failure) && if i + 1 < 6 {
                    final(ident).stage == IdentifyStage::Blinking((i + 1) as usize) && (r matches IdentifyAction::Blink(s)
                        && s == blink_state(old(ident).original, i + 1))
                } else {
                    final(ident).stage == IdentifyStage::Restoring(1) && (r matches IdentifyAction::Restore(s)
                        && s == old(ident).original)
                },
                (IdentifyStage::Blinking(_), Err(e)) => final(self).data.devices
                    == old(self).data.devices && opt_message_view(final(ident).failure) == Some(e@)
                    && final(ident).stage == IdentifyStage::Restoring(1) && (r matches IdentifyAction::Restore(s)
                    && s == old(ident).original),
                (IdentifyStage::Restoring(n), Ok(s)) => final(ident).stage == IdentifyStage::Done
                    && devices_view(final(self).data.devices@) == recorded(
                    devices_view(old(self).data.devices@),
                    old(ident).id@,
                    Ok(s),
                ) && match old(ident).failure {
                    Some(f) => r matches IdentifyAction::Finish(Err(g)) && g@ == f@,
                    None => r matches IdentifyAction::Finish(Ok(())),
                },
                (IdentifyStage::Restoring(n), Err(e)) => if n == 1 {
                    final(self).data.devices == old(self).data.devices && final(ident).stage
                        == IdentifyStage::Restoring(2) && opt_message_view(final(ident).failure)
                        == opt_message_view(old(ident).failure) && (r matches IdentifyAction::Restore(s)
                        && s == old(ident).original)
                } else {
                    final(ident).stage == IdentifyStage::Done && devices_view(
                        final(self).data.devices@,
                    ) == recorded(devices_view(old(self).data.devices@), old(ident).id@, Err(e@))
                        && (r matches IdentifyAction::Finish(Err(g)) && g@ == caused(
                        "error.restore"@,
                        e@,
                    ))
                },
                (IdentifyStage::Done, _) => false,
            },
    {
        match ident.stage {
            IdentifyStage::Blinking(i) => match outcome {
                Ok(_) => {
                    if i + 1 < 6 {
                        ident.stage = IdentifyStage::Blinking(i + 1);
                        let mut s = ident.original;
                        s.on = 1;
                        s.brightness = if (i + 1) % 2 == 0 {
                            50
                        } else {
                            0
                        };
                        IdentifyAction::Blink(s)
                    } else {
                        ident.stage = IdentifyStage::Restoring(1);
                        IdentifyAction::Restore(ident.original)
                    }
                },
                Err(e) => {
                    ident.failure = Some(e);
                    ident.stage = IdentifyStage::Restoring(1);
                    IdentifyAction::Restore(ident.original)
                },
            },
            IdentifyStage::Restoring(n) => match outcome {
                Ok(s) => {
                    ident.stage = IdentifyStage::Done;
                    self.record(ident.id.as_str(), Ok(s));
                    let mut failure = None;
                    std::mem::swap(&mut failure, &mut ident.failure);
                    match failure {
                        Some(f) => IdentifyAction::Finish(Err(f)),
                        None => IdentifyAction::Finish(Ok(())),
                    }
                },
                Err(e) => {
                    if n == 1 {
                        ident.stage = IdentifyStage::Restoring(2);
                        IdentifyAction::Restore(ident.original)
                    } else {
                        ident.stage = IdentifyStage::Done;
                        self.record(ident.id.as_str(), Err(e.duplicate()));
                        IdentifyAction::Finish(Err(Message::new("error.restore").cause(e)))
                    }
                },
            },
            IdentifyStage::Done => IdentifyAction::Finish(Ok(())),
        }
    }
}

} // verus!

verus! {

pub open spec fn readings_view(rs: Seq<(String, Result<LightState, Message>)>) -> Seq<
    (Seq<char>, Result<LightState, MessageView>),
> {
    rs.map_values(|r: (String, Result<LightState, Message>)| (r.0@, reading_view(r.1)))
}

/// The list after recording the readings in order.
pub open spec fn recorded_all(
    s: Seq<DeviceModel>,
    rs: Seq<(Seq<char>, Result<LightState, MessageView>)>,
) -> Seq<DeviceModel>
    decreases rs.len(),
{
    if rs.len() == 0 {
        s
    } else {
        recorded(recorded_all(s, rs.drop_last()), rs.last().0, rs.last().1)
    }
}

/// The identities of the lights a change reached, in order.
pub open spec fn reached(rs: Seq<(Seq<char>, Result<LightState, MessageView>)>) -> Seq<Seq<char>>
    decreases rs.len(),
{
    if rs.len() == 0 {
        Seq::empty()
    } else if rs.last().1 is Ok {
        reached(rs.drop_last()).push(rs.last().0)
    } else {
        reached(rs.drop_last())
    }
}

/// The lights a change did not reach, with the reason, in order.
pub open spec fn missed(rs: Seq<(Seq<char>, Result<LightState, MessageView>)>) -> Seq<
    (Seq<char>, MessageView),
>
    decreases rs.len(),
{
    if rs.len() == 0 {
        Seq::empty()
    } else {
        match rs.last().1 {
            Ok(_) => missed(rs.drop_last()),
            Err(e) => missed(rs.drop_last()).push((rs.last().0, e)),
        }
    }
}

pub open spec fn failures_view(v: Seq<(String, Message)>) -> Seq<(Seq<char>, MessageView)> {
    v.map_values(|f: (String, Message)| (f.0@, f.1@))
}

/// The state to write for a change: the patch applied to the state just read, or
/// the error of the read or of the patch.
pub open spec fn planned_spec(patch: Patch, read: Result<LightState, MessageView>) -> Result<
    LightState,
    MessageView,
> {
    match read {
        Err(e) => Err(e),
        Ok(s) => if patch.valid() {
            Ok(patch.applied(s))
        } else {
            Err(invalid_setting())
        },
    }
}

impl Patch {
    /// The state to write for this patch after reading `read`.
    pub fn planned(&self, read: Result<LightState, Message>) -> (r: Result<LightState, Message>)
        ensures
            reading_view(r) == planned_spec(*self, reading_view(read)),
    {
        match read {
            Err(e) => Err(e),
            Ok(s) => {
                let mut next = s;
                match self.apply(&mut next) {
                    Ok(()) => Ok(next),
                    Err(e) => Err(e),
                }
            },
        }
    }
}

impl Controller {
    /// Records each reading in order: a state clears the light's error, an error keeps
    /// its last confirmed state.
    pub fn record_readings(&mut self, readings: &Vec<(String, Result<LightState, Message>)>)
        ensures
            final(self).data.settings == old(self).data.settings,
            final(self).scanning == old(self).scanning,
            final(self).message == old(self).message,
            final(self).closing == old(self).closing,
            devices_view(final(self).data.devices@) == recorded_all(
                devices_view(old(self).data.devices@),
                readings_view(readings@),
            ),
    {
        let ghost rv = readings_view(readings@);
        let ghost start = devices_view(self.data.devices@);
        let mut i: usize = 0;
        while i < readings.len()
            invariant
                rv == readings_view(readings@),
                i <= readings@.len(),
                self.data.settings == old(self).data.settings,
                self.scanning == old(self).scanning,
                self.message == old(self).message,
                self.closing == old(self).closing,
                start == devices_view(old(self).data.devices@),
                devices_view(self.data.devices@) == recorded_all(start, rv.take(i as int)),
            decreases readings@.len() - i,
        {
            let result = match &readings[i].1 {
                Ok(s) => Ok(*s),
                Err(e) => Err(e.duplicate()),
            };
            assert(rv[i as int] == (readings@[i as int].0@, reading_view(readings@[i as int].1)));
            self.record(readings[i].0.as_str(), result);
            assert(rv.take(i + 1).drop_last() =~= rv.take(i as int));
            i = i + 1;
        }
        assert(rv.take(readings@.len() as int) =~= rv);
    }

    /// Ends a refresh: the readings of the lights that were due are recorded.
    pub fn finish_refresh(&mut self, readings: &Vec<(String, Result<LightState, Message>)>)
        ensures
            final(self).data.settings == old(self).data.settings,
            final(self).scanning == old(self).scanning,
            final(self).message == old(self).message,
            final(self).closing == old(self).closing,
            devices_view(final(self).data.devices@) == recorded_all(
                devices_view(old(self).data.devices@),
                readings_view(readings@),
            ),
    {
        self.record_readings(readings);
    }

    /// Ends a change. The lights of the plan that could not be looked up fail with
    /// their lookup error; then each result of a light that was written (the state read
    /// back after the write, or the error of the read, patch or write) counts. Each is
    /// recorded; the outcome lists the lights reached and those missed, then the
    /// failures that belong to no light; the outcome's message becomes the controller's.
    pub fn finish_change(
        &mut self,
        plan: Vec<(String, Result<Device, Message>)>,
        results: Vec<(String, Result<LightState, Message>)>,
        lost: Vec<Message>,
    ) -> (o: Outcome)
        ensures
            final(self).data.settings == old(self).data.settings,
            final(self).scanning == old(self).scanning,
            final(self).closing == old(self).closing,
            devices_view(final(self).data.devices@) == recorded_all(
                devices_view(old(self).data.devices@),
                unfound(plan_view(plan@)) + readings_view(results@),
            ),
            strings_view(o.succeeded@) == reached(
                unfound(plan_view(plan@)) + readings_view(results@),
            ),
            failures_view(o.failed@) == missed(unfound(plan_view(plan@)) + readings_view(results@))
                + lost@.map_values(|e: Message| (Seq::<char>::empty(), e@)),
            opt_message_view(final(self).message) == o.message_spec(),
    {
        let ghost pv = plan_view(plan@);
        let ghost rv = readings_view(results@);
        let mut all: Vec<(String, Result<LightState, Message>)> = Vec::new();
        let mut i: usize = 0;
        while i < plan.len()
            invariant
                pv == plan_view(plan@),
                i <= plan@.len(),
                readings_view(all@) == unfound(pv.take(i as int)),
            decreases plan@.len() - i,
        {
            assert(pv.take(i + 1).drop_last() =~= pv.take(i as int));
            assert(pv.take(i + 1).last() == pv[i as int]);
            match &plan[i].1 {
                Ok(_) => {},
                Err(e) => {
                    let ghost before = readings_view(all@);
                    all.push((plan[i].0.clone(), Err(e.duplicate())));
                    assert(readings_view(all@) =~= before.push((pv[i as int].0, Err(e@))));
                },
            }
            i = i + 1;
        }
        assert(pv.take(plan@.len() as int) =~= pv);
        let ghost front = all@;
        let mut rest = results;
        all.append(&mut rest);
        assert(readings_view(all@) =~= readings_view(front) + rv);
        self.settle_change(all, lost)
    }

    /// Records the results of a change and builds its outcome.
    fn settle_change(
        &mut self,
        results: Vec<(String, Result<LightState, Message>)>,
        lost: Vec<Message>,
    ) -> (o: Outcome)
        ensures
            final(self).data.settings == old(self).data.settings,
            final(self).scanning == old(self).scanning,
            final(self).closing == old(self).closing,
            devices_view(final(self).data.devices@) == recorded_all(
                devices_view(old(self).data.devices@),
                readings_view(results@),
            ),
            strings_view(o.succeeded@) == reached(readings_view(results@)),
            failures_view(o.failed@) == missed(readings_view(results@)) + lost@.map_values(
                |e: Message| (Seq::<char>::empty(), e@),
            ),
            opt_message_view(final(self).message) == o.message_spec(),
    {
        self.record_readings(&results);
        let ghost rv = readings_view(results@);
        let mut outcome = Outcome { succeeded: Vec::new(), failed: Vec::new() };
        let mut i: usize = 0;
        let n = results.len();
        let mut rest = results;
        while rest.len() > 0
            invariant
                rest@.len() + i == n,
                rv.len() == n,
                readings_view(rest@) == rv.skip(i as int),
                strings_view(outcome.succeeded@) == reached(rv.take(i as int)),
                failures_view(outcome.failed@) == missed(rv.take(i as int)),
            decreases rest@.len(),
        {
            let ghost old_rest = rest@;
            let (id, result) = rest.remove(0);
            proof {
                assert(readings_view(old_rest)[0] == (id@, reading_view(result)));
                assert(rv[i as int] == (id@, reading_view(result)));
                assert(rest@ =~= old_rest.skip(1));
                assert(readings_view(rest@) =~= readings_view(old_rest).skip(1));
                assert(rv.skip(i as int).skip(1) =~= rv.skip(i + 1));
                assert(rv.take(i + 1).drop_last() =~= rv.take(i as int));
                assert(rv.take(i + 1).last() == rv[i as int]);
            }
            let ghost s0 = strings_view(outcome.succeeded@);
            let ghost f0 = failures_view(outcome.failed@);
            match result {
                Ok(_) => {
                    outcome.succeeded.push(id);
                    assert(strings_view(outcome.succeeded@) =~= s0.push(rv[i as int].0));
                },
                Err(e) => {
                    let ghost ev = e@;
                    outcome.failed.push((id, e));
                    assert(failures_view(outcome.failed@) =~= f0.push((rv[i as int].0, ev)));
                },
            }
            i = i + 1;
        }
        assert(rv.take(n as int) =~= rv);
        let ghost f1 = failures_view(outcome.failed@);
        let ghost lv = lost@.map_values(|e: Message| (Seq::<char>::empty(), e@));
        let mut k: usize = 0;
        let m = lost.len();
        let mut rest_lost = lost;
        while rest_lost.len() > 0
            invariant
                rest_lost@.len() + k == m,
                lv.len() == m,
                rest_lost@.map_values(|e: Message| (Seq::<char>::empty(), e@)) == lv.skip(k as int),
                failures_view(outcome.failed@) == f1 + lv.take(k as int),
                strings_view(outcome.succeeded@) == reached(rv),
            decreases rest_lost@.len(),
        {
            let ghost old_rest = rest_lost@;
            let e = rest_lost.remove(0);
            let ghost f0 = failures_view(outcome.failed@);
            proof {
                assert(old_rest.map_values(|e: Message| (Seq::<char>::empty(), e@))[0] == (
                    Seq::<char>::empty(),
                    e@,
                ));
                assert(lv[k as int] == (Seq::<char>::empty(), e@));
                assert(rest_lost@ =~= old_rest.skip(1));
                assert(rest_lost@.map_values(|e: Message| (Seq::<char>::empty(), e@))
                    =~= old_rest.map_values(|e: Message| (Seq::<char>::empty(), e@)).skip(1));
                assert(lv.skip(k as int).skip(1) =~= lv.skip(k + 1));
            }
            outcome.failed.push((String::new(), e));
            assert(failures_view(outcome.failed@) =~= f0.push(lv[k as int]));
            assert(f1 + lv.take(k + 1) =~= (f1 + lv.take(k as int)).push(lv[k as int]));
            k = k + 1;
        }
        assert(lv.take(m as int) =~= lv);
        self.message = outcome.message();
        outcome
    }
}

} // verus!
