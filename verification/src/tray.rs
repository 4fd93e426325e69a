//! The tray menu: its entries for a snapshot, the change behind each entry, and the
//! decisions of the background loop.
use crate::chars::{decimal, owned, push_decimal};
use crate::i18n::{render_view, text, text_spec, Locale, Message, MessageView};
use crate::lights::{LightState, Patch, Snapshot};
use vstd::prelude::*;
use vstd::string::*;

verus! {

/// An entry of the tray menu.
#[derive(Debug)]
pub enum MenuNode {
    /// A clickable line with its id.
    Item { id: String, title: String, enabled: bool },
    Separator,
    /// A nested menu.
    Submenu { title: String, enabled: bool, children: Vec<MenuNode> },
}

/// What a menu entry shows.
pub enum MenuView {
    Item { id: Seq<char>, title: Seq<char>, enabled: bool },
    Separator,
    Submenu { title: Seq<char>, enabled: bool, children: Seq<MenuView> },
}

impl MenuNode {
    pub open spec fn model(self) -> MenuView
        decreases self,
    {
        match self {
            MenuNode::Item { id, title, enabled } => MenuView::Item {
                id: id@,
                title: title@,
                enabled,
            },
            MenuNode::Separator => MenuView::Separator,
            MenuNode::Submenu { title, enabled, children } => MenuView::Submenu {
                title: title@,
                enabled,
                children: Seq::new(
                    children@.len(),
                    |i: int|
                        if 0 <= i < children@.len() {
                            children@[i].model()
                        } else {
                            arbitrary()
                        },
                ),
            },
        }
    }
}

impl View for MenuNode {
    type V = MenuView;

    open spec fn view(&self) -> MenuView {
        self.model()
    }
}

pub open spec fn nodes_view(v: Seq<MenuNode>) -> Seq<MenuView> {
    v.map_values(|n: MenuNode| n@)
}

/// The change that a menu entry asks for: its id, the light it targets (all lights
/// that answered when none), and the patch.
#[derive(Debug)]
pub struct MenuAction {
    pub id: String,
    pub target: Option<String>,
    pub patch: Patch,
}

pub struct ActionView {
    pub id: Seq<char>,
    pub target: Option<Seq<char>>,
    pub patch: Patch,
}

impl View for MenuAction {
    type V = ActionView;

    open spec fn view(&self) -> ActionView {
        ActionView {
            id: self.id@,
            target: match self.target {
                Some(t) => Some(t@),
                None => None,
            },
            patch: self.patch,
        }
    }
}

pub open spec fn actions_view(v: Seq<MenuAction>) -> Seq<ActionView> {
    v.map_values(|a: MenuAction| a@)
}

/// The nearest whole number to 1 000 000 / `x`, halves rounded up: the conversion
/// between kelvin and mired. Division by zero saturates.
pub open spec fn reciprocal(x: nat) -> nat {
    if x == 0 {
        0xffff_ffff
    } else {
        ((2_000_000 + x) / (2 * x)) as nat
    }
}

/// The mired value for `kelvin`, or the kelvin value for a mired value.
pub fn reciprocal_of(x: u32) -> (r: u32)
    ensures
        r as nat == reciprocal(x as nat),
{
    if x == 0 {
        0xffff_ffff
    } else {
        let x64 = x as u64;
        assert((2_000_000 + x64) / (2 * x64) <= 2_000_001) by (nonlinear_arith)
            requires
                x64 >= 1,
        ;
        ((2_000_000 + x64) / (2 * x64)) as u32
    }
}

/// The brightness presets, in percent.
pub open spec fn brightness_presets() -> Seq<u8> {
    seq![10u8, 25u8, 50u8, 75u8, 100u8]
}

/// The colour temperature presets, in kelvin.
pub open spec fn kelvin_presets() -> Seq<u32> {
    seq![3000u32, 4000u32, 5000u32, 6500u32]
}

pub open spec fn on_patch(v: u8) -> Patch {
    Patch { on: Some(v), brightness: None, temperature: None }
}

pub open spec fn brightness_patch(v: u8) -> Patch {
    Patch { on: None, brightness: Some(v), temperature: None }
}

pub open spec fn temperature_patch(kelvin: u32) -> Patch {
    Patch { on: None, brightness: None, temperature: Some(reciprocal(kelvin as nat) as u16) }
}

pub open spec fn target_view(id: Option<String>) -> Option<Seq<char>> {
    match id {
        Some(t) => Some(t@),
        None => None,
    }
}

/// The entries and actions that the presets add under `prefix`: on and off, then a
/// brightness submenu and a colour temperature submenu.
pub open spec fn presets_nodes(prefix: Seq<char>, enabled: bool, locale: Locale) -> Seq<MenuView> {
    seq![
        MenuView::Item { id: prefix + "-on"@, title: text_spec(locale, "turn_on"@), enabled },
        MenuView::Item { id: prefix + "-off"@, title: text_spec(locale, "turn_off"@), enabled },
        MenuView::Submenu {
            title: text_spec(locale, "brightness"@),
            enabled,
            children: brightness_presets().map_values(
                |v: u8|
                    MenuView::Item {
                        id: prefix + "-b"@ + decimal(v as nat),
                        title: decimal(v as nat) + "%"@,
                        enabled,
                    },
            ),
        },
        MenuView::Submenu {
            title: text_spec(locale, "temperature"@),
            enabled,
            children: kelvin_presets().map_values(
                |k: u32|
                    MenuView::Item {
                        id: prefix + "-t"@ + decimal(k as nat),
                        title: decimal(k as nat) + " K"@,
                        enabled,
                    },
            ),
        },
    ]
}

pub open spec fn presets_actions(prefix: Seq<char>, target: Option<Seq<char>>) -> Seq<ActionView> {
    seq![
        ActionView { id: prefix + "-on"@, target, patch: on_patch(1) },
        ActionView { id: prefix + "-off"@, target, patch: on_patch(0) },
    ] + brightness_presets().map_values(
        |v: u8| ActionView { id: prefix + "-b"@ + decimal(v as nat), target, patch: brightness_patch(v) },
    ) + kelvin_presets().map_values(
        |k: u32|
            ActionView { id: prefix + "-t"@ + decimal(k as nat), target, patch: temperature_patch(k) },
    )
}

fn copy_target(id: &Option<String>) -> (r: Option<String>)
    ensures
        target_view(r) == target_view(*id),
{
    match id {
        Some(t) => Some(t.clone()),
        None => None,
    }
}

fn key_with(prefix: &str, tail: &str) -> (r: String)
    ensures
        r@ == prefix@ + tail@,
{
    let mut k = owned(prefix);
    k.append(tail);
    k
}

fn numbered(prefix: &str, tail: &str, n: u32) -> (r: String)
    ensures
        r@ == prefix@ + tail@ + decimal(n as nat),
{
    let mut k = owned(prefix);
    k.append(tail);
    push_decimal(&mut k, n as u64);
    k
}

fn number_with(n: u32, unit: &str) -> (r: String)
    ensures
        r@ == decimal(n as nat) + unit@,
{
    let mut k = String::new();
    push_decimal(&mut k, n as u64);
    k.append(unit);
    assert(k@ =~= decimal(n as nat) + unit@);
    k
}

/// Adds the preset entries under `prefix` to `menu` and their actions to `actions`.
#[verifier::loop_isolation(false)]
pub fn presets(
    menu: &mut Vec<MenuNode>,
    prefix: &str,
    id: Option<String>,
    enabled: bool,
    locale: Locale,
    actions: &mut Vec<MenuAction>,
)
    ensures
        nodes_view(final(menu)@) == nodes_view(old(menu)@) + presets_nodes(prefix@, enabled, locale),
        actions_view(final(actions)@) == actions_view(old(actions)@) + presets_actions(
            prefix@,
            target_view(id),
        ),
{
    let ghost menu0 = nodes_view(menu@);
    let ghost actions0 = actions_view(actions@);
    let ghost t = target_view(id);
    menu.push(
        MenuNode::Item { id: key_with(prefix, "-on"), title: text(locale, "turn_on"), enabled },
    );
    actions.push(
        MenuAction {
            id: key_with(prefix, "-on"),
            target: copy_target(&id),
            patch: Patch { on: Some(1), brightness: None, temperature: None },
        },
    );
    menu.push(
        MenuNode::Item { id: key_with(prefix, "-off"), title: text(locale, "turn_off"), enabled },
    );
    actions.push(
        MenuAction {
            id: key_with(prefix, "-off"),
            target: copy_target(&id),
            patch: Patch { on: Some(0), brightness: None, temperature: None },
        },
    );
    let ghost actions2 = actions_view(actions@);
    assert(actions2 =~= actions0 + seq![
        ActionView { id: prefix@ + "-on"@, target: t, patch: on_patch(1) },
        ActionView { id: prefix@ + "-off"@, target: t, patch: on_patch(0) },
    ]);
    let levels: [u8; 5] = [10, 25, 50, 75, 100];
    let ghost bf = |v: u8|
        MenuView::Item {
            id: prefix@ + "-b"@ + decimal(v as nat),
            title: decimal(v as nat) + "%"@,
            enabled,
        };
    let ghost ba = |v: u8|
        ActionView { id: prefix@ + "-b"@ + decimal(v as nat), target: t, patch: brightness_patch(v) };
    let mut brightness: Vec<MenuNode> = Vec::new();
    let mut i: usize = 0;
    while i < 5
        invariant
            i <= 5,
            levels@ == brightness_presets(),
            target_view(id) == t,
            nodes_view(brightness@) == brightness_presets().take(i as int).map_values(bf),
            actions_view(actions@) == actions2 + brightness_presets().take(i as int).map_values(ba),
        decreases 5 - i,
    {
        let v = levels[i];
        brightness.push(
            MenuNode::Item {
                id: numbered(prefix, "-b", v as u32),
                title: number_with(v as u32, "%"),
                enabled,
            },
        );
        let ghost prev = actions_view(actions@);
        actions.push(
            MenuAction {
                id: numbered(prefix, "-b", v as u32),
                target: copy_target(&id),
                patch: Patch { on: None, brightness: Some(v), temperature: None },
            },
        );
        proof {
            let p = brightness_presets();
            assert(v == p[i as int]);
            assert(p.take(i + 1) =~= p.take(i as int).push(v));
            assert(p.take(i + 1).map_values(bf) =~= p.take(i as int).map_values(bf).push(bf(v)));
            assert(p.take(i + 1).map_values(ba) =~= p.take(i as int).map_values(ba).push(ba(v)));
            assert(brightness@.last()@ == bf(v));
            assert(actions@.last()@ == ba(v));
            assert(actions_view(actions@) =~= prev.push(ba(v)));
        }
        i = i + 1;
        assert(nodes_view(brightness@) =~= brightness_presets().take(i as int).map_values(bf));
        assert(actions_view(actions@) =~= actions2 + brightness_presets().take(i as int).map_values(ba));
    }
    let ghost actions3 = actions_view(actions@);
    let kelvins: [u32; 4] = [3000, 4000, 5000, 6500];
    let ghost tf = |k: u32|
        MenuView::Item {
            id: prefix@ + "-t"@ + decimal(k as nat),
            title: decimal(k as nat) + " K"@,
            enabled,
        };
    let ghost ta = |k: u32|
        ActionView { id: prefix@ + "-t"@ + decimal(k as nat), target: t, patch: temperature_patch(k) };
    let mut temperature: Vec<MenuNode> = Vec::new();
    let mut j: usize = 0;
    while j < 4
        invariant
            j <= 4,
            kelvins@ == kelvin_presets(),
            target_view(id) == t,
            nodes_view(temperature@) == kelvin_presets().take(j as int).map_values(tf),
            actions_view(actions@) == actions3 + kelvin_presets().take(j as int).map_values(ta),
        decreases 4 - j,
    {
        let k = kelvins[j];
        temperature.push(
            MenuNode::Item { id: numbered(prefix, "-t", k), title: number_with(k, " K"), enabled },
        );
        let mired = reciprocal_of(k);
        assert(mired <= 334) by {
            assert(k >= 3000);
            assert((2_000_000 + k as nat) / (2 * k as nat) <= 334) by (nonlinear_arith)
                requires
                    k >= 3000,
            ;
        }
        let ghost prev = actions_view(actions@);
        actions.push(
            MenuAction {
                id: numbered(prefix, "-t", k),
                target: copy_target(&id),
                patch: Patch { on: None, brightness: None, temperature: Some(mired as u16) },
            },
        );
        proof {
            let p = kelvin_presets();
            assert(k == p[j as int]);
            assert(p.take(j + 1) =~= p.take(j as int).push(k));
            assert(p.take(j + 1).map_values(tf) =~= p.take(j as int).map_values(tf).push(tf(k)));
            assert(p.take(j + 1).map_values(ta) =~= p.take(j as int).map_values(ta).push(ta(k)));
            assert(temperature@.last()@ == tf(k));
            assert(actions@.last()@ == ta(k));
            assert(actions_view(actions@) =~= prev.push(ta(k)));
        }
        j = j + 1;
        assert(nodes_view(temperature@) =~= kelvin_presets().take(j as int).map_values(tf));
        assert(actions_view(actions@) =~= actions3 + kelvin_presets().take(j as int).map_values(ta));
    }
    let ghost bv = nodes_view(brightness@);
    let ghost tv = nodes_view(temperature@);
    menu.push(
        MenuNode::Submenu {
            title: text(locale, "brightness"),
            enabled,
            children: brightness,
        },
    );
    menu.push(
        MenuNode::Submenu {
            title: text(locale, "temperature"),
            enabled,
            children: temperature,
        },
    );
    proof {
        assert(brightness_presets().take(5) =~= brightness_presets());
        assert(kelvin_presets().take(4) =~= kelvin_presets());
        let m = nodes_view(menu@);
        let b = menu0.len() as int;
        assert(m[b + 2] == menu@[b + 2]@);
        assert(menu@[b + 2]@ matches MenuView::Submenu { children, .. } && children =~= bv);
        assert(menu@[b + 3]@ matches MenuView::Submenu { children, .. } && children =~= tv);
        assert(m =~= menu0 + presets_nodes(prefix@, enabled, locale));
        assert(actions_view(actions@) =~= actions0 + presets_actions(prefix@, t));
    }
}

} // verus!

verus! {

/// The lower-case hexadecimal digit for `d`.
pub open spec fn hex_digit(d: u8) -> char {
    if d < 10 {
        crate::chars::digit(d as nat)
    } else if d == 10 {
        'a'
    } else if d == 11 {
        'b'
    } else if d == 12 {
        'c'
    } else if d == 13 {
        'd'
    } else if d == 14 {
        'e'
    } else {
        'f'
    }
}

/// Two lower-case hexadecimal digits per byte.
pub open spec fn hex(bytes: Seq<u8>) -> Seq<char>
    decreases bytes.len(),
{
    if bytes.len() == 0 {
        Seq::empty()
    } else {
        hex(bytes.drop_last()) + seq![hex_digit(bytes.last() / 16), hex_digit(bytes.last() % 16)]
    }
}

fn hex_char(d: u8) -> (c: char)
    requires
        d < 16,
    ensures
        c == hex_digit(d),
{
    if d < 10 {
        let c = if d == 0 {
            '0'
        } else if d == 1 {
            '1'
        } else if d == 2 {
            '2'
        } else if d == 3 {
            '3'
        } else if d == 4 {
            '4'
        } else if d == 5 {
            '5'
        } else if d == 6 {
            '6'
        } else if d == 7 {
            '7'
        } else if d == 8 {
            '8'
        } else {
            '9'
        };
        c
    } else if d == 10 {
        'a'
    } else if d == 11 {
        'b'
    } else if d == 12 {
        'c'
    } else if d == 13 {
        'd'
    } else if d == 14 {
        'e'
    } else {
        'f'
    }
}

/// The menu key of a light: the hexadecimal form of the UTF-8 bytes of its identity.
pub fn device_key(id: &String) -> (r: String)
    ensures
        r@ == hex(vstd::utf8::encode_utf8(id@)),
{
    let bytes = id.as_str().as_bytes();
    let ghost bs = bytes@;
    let mut r = String::new();
    let mut i: usize = 0;
    while i < bytes.len()
        invariant
            bs == bytes@,
            i <= bs.len(),
            r@ == hex(bs.take(i as int)),
        decreases bs.len() - i,
    {
        let b = bytes[i];
        r.push(hex_char(b / 16));
        r.push(hex_char(b % 16));
        assert(bs.take(i + 1).drop_last() =~= bs.take(i as int));
        i = i + 1;
        assert(r@ =~= hex(bs.take(i as int)));
    }
    assert(bs.take(bs.len() as int) =~= bs);
    r
}

/// At most the first 100 characters of `s`.
pub open spec fn first_hundred(s: Seq<char>) -> Seq<char> {
    if s.len() <= 100 {
        s
    } else {
        s.take(100)
    }
}

/// The light answered last time: no error and a known state.
pub open spec fn is_online(d: crate::lights::DeviceView) -> bool {
    d.error is None && d.state is Some
}

/// The status line of an online light: brightness and colour temperature in kelvin.
pub open spec fn status_message(s: LightState) -> MessageView {
    MessageView {
        key: "light_status"@,
        params: Map::empty().insert("brightness"@, decimal(s.brightness as nat)).insert(
            "kelvin"@,
            decimal(reciprocal(s.temperature as nat)),
        ),
        causes: Seq::empty(),
    }
}

/// The submenu of one light: its name and status, for an online light its readings,
/// then its presets.
pub open spec fn device_node(d: crate::lights::DeviceView, locale: Locale) -> MenuView {
    let key = hex(vstd::utf8::encode_utf8(d.device.id@));
    let online = is_online(d);
    let status = if online {
        if d.state->0.on == 1 {
            text_spec(locale, "on"@)
        } else {
            text_spec(locale, "off"@)
        }
    } else {
        text_spec(locale, "offline"@)
    };
    MenuView::Submenu {
        title: d.device.name@ + " \u{b7} "@ + status,
        enabled: true,
        children: (if online {
            seq![
                MenuView::Item {
                    id: "status-"@ + key,
                    title: render_view(status_message(d.state->0), locale),
                    enabled: false,
                },
                MenuView::Separator,
            ]
        } else {
            Seq::empty()
        }) + presets_nodes("device-"@ + key, online, locale),
    }
}

/// The actions of the lights' submenus, light by light.
pub open spec fn device_actions(ds: Seq<crate::lights::DeviceView>) -> Seq<ActionView>
    decreases ds.len(),
{
    if ds.len() == 0 {
        Seq::empty()
    } else {
        device_actions(ds.drop_last()) + presets_actions(
            "device-"@ + hex(vstd::utf8::encode_utf8(ds.last().device.id@)),
            Some(ds.last().device.id@),
        )
    }
}

/// Some light answered last time.
pub open spec fn any_online(ds: Seq<crate::lights::DeviceView>) -> bool {
    exists|i: int| 0 <= i < ds.len() && is_online(#[trigger] ds[i])
}

/// The first entries: all on, all off, the presets for all lights, a separator.
pub open spec fn menu_head(locale: Locale, any: bool) -> Seq<MenuView> {
    seq![
        MenuView::Item { id: "all-on"@, title: text_spec(locale, "all_on"@), enabled: any },
        MenuView::Item { id: "all-off"@, title: text_spec(locale, "all_off"@), enabled: any },
        MenuView::Submenu {
            title: text_spec(locale, "all_lights"@),
            enabled: any,
            children: presets_nodes("all"@, any, locale),
        },
        MenuView::Separator,
    ]
}

/// The line that says no light is known, when none is.
pub open spec fn menu_empty(locale: Locale, empty: bool) -> Seq<MenuView> {
    if empty {
        seq![MenuView::Item { id: "empty"@, title: text_spec(locale, "empty_menu"@), enabled: false }]
    } else {
        Seq::empty()
    }
}

/// The last message, shortened to 100 characters, after a separator.
pub open spec fn menu_message(message: Option<MessageView>, locale: Locale) -> Seq<MenuView> {
    match message {
        Some(m) => seq![
            MenuView::Separator,
            MenuView::Item {
                id: "error"@,
                title: render_view(
                    MessageView {
                        key: "attention"@,
                        params: Map::empty().insert("message"@, first_hundred(render_view(m, locale))),
                        causes: Seq::empty(),
                    },
                    locale,
                ),
                enabled: false,
            },
        ],
        None => Seq::empty(),
    }
}

/// The last entries: search (disabled while one runs), controls, settings, quit.
pub open spec fn menu_tail(locale: Locale, scanning: bool) -> Seq<MenuView> {
    seq![
        MenuView::Separator,
        MenuView::Item {
            id: "scan"@,
            title: if scanning {
                text_spec(locale, "scanning"@)
            } else {
                text_spec(locale, "scan"@)
            },
            enabled: !scanning,
        },
        MenuView::Item { id: "open"@, title: text_spec(locale, "open_controls"@), enabled: true },
        MenuView::Item { id: "settings"@, title: text_spec(locale, "settings"@), enabled: true },
        MenuView::Item { id: "quit"@, title: text_spec(locale, "quit"@), enabled: true },
    ]
}

/// The tray menu for a snapshot.
pub open spec fn menu_spec(s: &Snapshot) -> Seq<MenuView> {
    let ds = s.devices@;
    menu_head(s.locale, any_online(ds)) + menu_empty(s.locale, ds.len() == 0) + ds.map_values(
        |d: crate::lights::DeviceView| device_node(d, s.locale),
    ) + menu_message(crate::lights::opt_message_view(s.message), s.locale) + menu_tail(
        s.locale,
        s.scanning,
    )
}

/// The actions behind the tray menu's entries.
pub open spec fn menu_actions_spec(s: &Snapshot) -> Seq<ActionView> {
    seq![
        ActionView { id: "all-on"@, target: None, patch: on_patch(1) },
        ActionView { id: "all-off"@, target: None, patch: on_patch(0) },
    ] + presets_actions("all"@, None) + device_actions(s.devices@)
}

fn item(id: &str, title: String, enabled: bool) -> (r: MenuNode)
    ensures
        r@ == (MenuView::Item { id: id@, title: title@, enabled }),
{
    MenuNode::Item { id: owned(id), title, enabled }
}

/// The first 100 characters of `s`.
fn first_chars(s: &String) -> (r: String)
    ensures
        r@ == first_hundred(s@),
{
    let v = crate::chars::chars_of(s.as_str());
    let n = if v.len() <= 100 {
        v.len()
    } else {
        100
    };
    let r = crate::chars::string_of_range(&v, 0, n);
    assert(r@ =~= first_hundred(s@));
    r
}

/// The submenu of one light, with its actions added to `actions`.
#[verifier::loop_isolation(false)]
fn device_menu(d: &crate::lights::DeviceView, locale: Locale, actions: &mut Vec<MenuAction>) -> (r:
    MenuNode)
    ensures
        r@ == device_node(*d, locale),
        actions_view(final(actions)@) == actions_view(old(actions)@) + presets_actions(
            "device-"@ + hex(vstd::utf8::encode_utf8(d.device.id@)),
            Some(d.device.id@),
        ),
{
    let key = device_key(&d.device.id);
    let online = d.error.is_none() && d.state.is_some();
    let status = if online {
        let on = match d.state {
            Some(s) => s.on == 1,
            None => false,
        };
        if on {
            text(locale, "on")
        } else {
            text(locale, "off")
        }
    } else {
        text(locale, "offline")
    };
    let mut title = d.device.name.clone();
    title.append(" \u{b7} ");
    title.append(status.as_str());
    let mut children: Vec<MenuNode> = Vec::new();
    if online {
        let state = match d.state {
            Some(s) => s,
            None => LightState { on: 0, brightness: 0, temperature: 0 },
        };
        let mut b = String::new();
        push_decimal(&mut b, state.brightness as u64);
        let mut k = String::new();
        push_decimal(&mut k, reciprocal_of(state.temperature as u32) as u64);
        let label = Message::new("light_status").param("brightness", b.as_str()).param(
            "kelvin",
            k.as_str(),
        ).render(locale);
        let mut status_id = owned("status-");
        status_id.append(key.as_str());
        children.push(MenuNode::Item { id: status_id, title: label, enabled: false });
        children.push(MenuNode::Separator);
    }
    let ghost first = nodes_view(children@);
    let mut prefix = owned("device-");
    prefix.append(key.as_str());
    presets(&mut children, prefix.as_str(), Some(d.device.id.clone()), online, locale, actions);
    let ghost cv = nodes_view(children@);
    let ghost tv = title@;
    let r = MenuNode::Submenu { title, enabled: true, children };
    proof {
        let want = device_node(*d, locale);
        if online {
            assert(first =~= seq![
                MenuView::Item {
                    id: "status-"@ + hex(vstd::utf8::encode_utf8(d.device.id@)),
                    title: render_view(status_message(d.state->0), locale),
                    enabled: false,
                },
                MenuView::Separator,
            ]);
        } else {
            assert(first =~= Seq::<MenuView>::empty());
        }
        assert(r@ matches MenuView::Submenu { children: c, .. } && c =~= cv);
        assert(r@ == MenuView::Submenu { title: tv, enabled: true, children: cv });
    }
    r
}

} // verus!

verus! {

fn head_nodes(any: bool, locale: Locale, actions: &mut Vec<MenuAction>) -> (r: Vec<MenuNode>)
    ensures
        nodes_view(r@) == menu_head(locale, any),
        actions_view(final(actions)@) == actions_view(old(actions)@) + seq![
            ActionView { id: "all-on"@, target: None, patch: on_patch(1) },
            ActionView { id: "all-off"@, target: None, patch: on_patch(0) },
        ] + presets_actions("all"@, None),
{
    let ghost a0 = actions_view(actions@);
    let mut nodes: Vec<MenuNode> = Vec::new();
    nodes.push(item("all-on", text(locale, "all_on"), any));
    nodes.push(item("all-off", text(locale, "all_off"), any));
    actions.push(
        MenuAction {
            id: owned("all-on"),
            target: None,
            patch: Patch { on: Some(1), brightness: None, temperature: None },
        },
    );
    actions.push(
        MenuAction {
            id: owned("all-off"),
            target: None,
            patch: Patch { on: Some(0), brightness: None, temperature: None },
        },
    );
    let ghost a2 = actions_view(actions@);
    assert(a2 =~= a0 + seq![
        ActionView { id: "all-on"@, target: None, patch: on_patch(1) },
        ActionView { id: "all-off"@, target: None, patch: on_patch(0) },
    ]);
    let mut all: Vec<MenuNode> = Vec::new();
    presets(&mut all, "all", None, any, locale, actions);
    let ghost allv = nodes_view(all@);
    assert(allv =~= presets_nodes("all"@, any, locale));
    let all_node = MenuNode::Submenu { title: text(locale, "all_lights"), enabled: any, children: all };
    assert(all_node@ matches MenuView::Submenu { children: c, .. } && c =~= allv);
    nodes.push(all_node);
    nodes.push(MenuNode::Separator);
    assert(nodes_view(nodes@) =~= menu_head(locale, any));
    assert(actions_view(actions@) =~= a0 + seq![
        ActionView { id: "all-on"@, target: None, patch: on_patch(1) },
        ActionView { id: "all-off"@, target: None, patch: on_patch(0) },
    ] + presets_actions("all"@, None));
    nodes
}

fn message_nodes(message: &Option<Message>, locale: Locale) -> (r: Vec<MenuNode>)
    ensures
        nodes_view(r@) == menu_message(crate::lights::opt_message_view(*message), locale),
{
    let mut nodes: Vec<MenuNode> = Vec::new();
    match message {
        Some(m) => {
            nodes.push(MenuNode::Separator);
            let whole = m.render(locale);
            let short = first_chars(&whole);
            let title = Message::new("attention").param("message", short.as_str()).render(locale);
            nodes.push(item("error", title, false));
        },
        None => {},
    }
    assert(nodes_view(nodes@) =~= menu_message(crate::lights::opt_message_view(*message), locale));
    nodes
}

fn tail_nodes(scanning: bool, locale: Locale) -> (r: Vec<MenuNode>)
    ensures
        nodes_view(r@) == menu_tail(locale, scanning),
{
    let mut nodes: Vec<MenuNode> = Vec::new();
    nodes.push(MenuNode::Separator);
    let scan_title = if scanning {
        text(locale, "scanning")
    } else {
        text(locale, "scan")
    };
    nodes.push(item("scan", scan_title, !scanning));
    nodes.push(item("open", text(locale, "open_controls"), true));
    nodes.push(item("settings", text(locale, "settings"), true));
    nodes.push(item("quit", text(locale, "quit"), true));
    assert(nodes_view(nodes@) =~= menu_tail(locale, scanning));
    nodes
}

/// The tray menu for a snapshot and the action behind each of its entries.
pub fn menu(s: &Snapshot) -> (r: (Vec<MenuNode>, Vec<MenuAction>))
    ensures
        nodes_view(r.0@) == menu_spec(s),
        actions_view(r.1@) == menu_actions_spec(s),
{
    let locale = s.locale;
    let ghost ds = s.devices@;
    let mut any = false;
    let mut i: usize = 0;
    while i < s.devices.len()
        invariant
            ds == s.devices@,
            i <= ds.len(),
            any == exists|j: int| 0 <= j < i && is_online(#[trigger] ds[j]),
        decreases ds.len() - i,
    {
        if s.devices[i].error.is_none() && s.devices[i].state.is_some() {
            any = true;
        }
        i = i + 1;
    }
    assert(any == any_online(ds));
    let mut actions: Vec<MenuAction> = Vec::new();
    let mut nodes = head_nodes(any, locale, &mut actions);
    let ghost acts = actions_view(actions@);
    if s.devices.len() == 0 {
        nodes.push(item("empty", text(locale, "empty_menu"), false));
    }
    let ghost head2 = nodes_view(nodes@);
    assert(head2 =~= menu_head(locale, any) + menu_empty(locale, ds.len() == 0));
    let ghost f = |d: crate::lights::DeviceView| device_node(d, locale);
    let mut k: usize = 0;
    while k < s.devices.len()
        invariant
            ds == s.devices@,
            locale == s.locale,
            f == (|d: crate::lights::DeviceView| device_node(d, locale)),
            k <= ds.len(),
            nodes_view(nodes@) == head2 + ds.take(k as int).map_values(f),
            actions_view(actions@) == acts + device_actions(ds.take(k as int)),
        decreases ds.len() - k,
    {
        let ghost prev_nodes = nodes_view(nodes@);
        let node = device_menu(&s.devices[k], locale, &mut actions);
        nodes.push(node);
        proof {
            assert(ds.take(k + 1) =~= ds.take(k as int).push(ds[k as int]));
            assert(ds.take(k + 1).map_values(f) =~= ds.take(k as int).map_values(f).push(
                f(ds[k as int]),
            ));
            assert(nodes_view(nodes@) =~= prev_nodes.push(f(ds[k as int])));
            assert(ds.take(k + 1).drop_last() =~= ds.take(k as int));
        }
        k = k + 1;
    }
    assert(ds.take(ds.len() as int) =~= ds);
    let ghost middle = nodes_view(nodes@);
    let mut more = message_nodes(&s.message, locale);
    let ghost mv = nodes_view(more@);
    nodes.append(&mut more);
    let ghost with_message = nodes_view(nodes@);
    assert(with_message =~= middle + mv);
    let mut tail = tail_nodes(s.scanning, locale);
    let ghost tv = nodes_view(tail@);
    nodes.append(&mut tail);
    assert(nodes_view(nodes@) =~= with_message + tv);
    assert(nodes_view(nodes@) =~= menu_spec(s));
    assert(actions_view(actions@) =~= menu_actions_spec(s));
    (nodes, actions)
}

} // verus!

verus! {

/// What a click on a tray menu entry does.
#[derive(Debug, PartialEq, Eq)]
pub enum MenuCommand {
    Quit,
    Open,
    Settings,
    Scan,
    /// Run the action registered under this entry's id, if there is one.
    Action,
}

/// The command behind the menu entry `id`.
pub fn menu_command(id: &str) -> (r: MenuCommand)
    ensures
        id@ == "quit"@ ==> r == MenuCommand::Quit,
        id@ == "open"@ ==> r == MenuCommand::Open,
        id@ == "settings"@ ==> r == MenuCommand::Settings,
        id@ == "scan"@ ==> r == MenuCommand::Scan,
        id@ != "quit"@ && id@ != "open"@ && id@ != "settings"@ && id@ != "scan"@ ==> r
            == MenuCommand::Action,
{
    proof {
        reveal_strlit("quit");
        reveal_strlit("open");
        reveal_strlit("settings");
        reveal_strlit("scan");
        assert("quit"@[0] != "open"@[0]);
        assert("quit"@[0] != "settings"@[0]);
        assert("quit"@[0] != "scan"@[0]);
        assert("open"@[0] != "settings"@[0]);
        assert("open"@[0] != "scan"@[0]);
        assert("settings"@.len() != "scan"@.len());
    }
    if crate::chars::same_text(id, "quit") {
        MenuCommand::Quit
    } else if crate::chars::same_text(id, "open") {
        MenuCommand::Open
    } else if crate::chars::same_text(id, "settings") {
        MenuCommand::Settings
    } else if crate::chars::same_text(id, "scan") {
        MenuCommand::Scan
    } else {
        MenuCommand::Action
    }
}

/// The action registered under `id`: the last one with that id.
pub fn find_action(actions: &Vec<MenuAction>, id: &str) -> (r: Option<(Option<String>, Patch)>)
    ensures
        match r {
            Some((t, p)) => exists|i: int|
                0 <= i < actions@.len() && actions@[i].id@ == id@ && actions@[i]@.target
                    == target_view(t) && actions@[i].patch == p && forall|j: int|
                    i < j < actions@.len() ==> actions@[j].id@ != id@,
            None => forall|j: int| 0 <= j < actions@.len() ==> actions@[j].id@ != id@,
        },
{
    let mut i = actions.len();
    while i > 0
        invariant
            i <= actions@.len(),
            forall|j: int| i <= j < actions@.len() ==> actions@[j].id@ != id@,
        decreases i,
    {
        let a = &actions[i - 1];
        if crate::chars::same_text(a.id.as_str(), id) {
            let t = copy_target(&a.target);
            return Some((t, a.patch));
        }
        i = i - 1;
    }
    None
}

/// What one pass of the background loop does.
#[derive(Debug, PartialEq, Eq)]
pub struct TickPlan {
    /// Check whether a tray host is present (every fifth pass).
    pub check_tray_host: bool,
    /// Read the lights: every pass while a window shows, else every fifth pass.
    pub refresh: bool,
}

/// The plan for pass number `tick` of the background loop.
pub fn tick_plan(tick: u64, window_visible: bool) -> (r: TickPlan)
    ensures
        r.check_tray_host == (tick % 5 == 0),
        r.refresh == (window_visible || tick % 5 == 0),
{
    let fifth = tick % 5 == 0;
    TickPlan { check_tray_host: fifth, refresh: window_visible || fifth }
}

} // verus!

verus! {

/// The bytes spell `true` at position `i`.
pub open spec fn true_at(s: Seq<u8>, i: int) -> bool {
    0 <= i && i + 4 <= s.len() && s[i] == 116 && s[i + 1] == 114 && s[i + 2] == 117 && s[i + 3]
        == 101
}

/// Whether the bus's answer to "does this name have an owner" says yes: the query
/// succeeded and its output contains `true`. ASCII bytes never take part in an
/// invalid UTF-8 sequence, so this is the same as searching the lossily decoded text.
pub fn tray_host_answer(success: bool, stdout: &[u8]) -> (r: bool)
    ensures
        r == (success && exists|i: int| true_at(stdout@, i)),
{
    if !success {
        return false;
    }
    let mut i: usize = 0;
    while stdout.len() >= 4 && i <= stdout.len() - 4
        invariant
            success,
            i <= stdout@.len(),
            forall|j: int| 0 <= j < i ==> !true_at(stdout@, j),
        decreases stdout@.len() - i,
    {
        if stdout[i] == 116 && stdout[i + 1] == 114 && stdout[i + 2] == 117 && stdout[i + 3] == 101 {
            assert(true_at(stdout@, i as int));
            return true;
        }
        i = i + 1;
    }
    proof {
        assert forall|j: int| !true_at(stdout@, j) by {
            if j >= i {
                assert(!(j + 4 <= stdout@.len()));
            }
        }
    }
    false
}

/// The tray can be used: the icon was built and a tray host is present.
pub fn tray_usable(built: bool, host: bool) -> (r: bool)
    ensures
        r == (built && host),
{
    built && host
}

/// Whether the window opens at start: on the first start, or when the tray cannot be
/// used.
pub fn show_window_at_start(first: bool, built: bool, host: bool) -> (r: bool)
    ensures
        r == (first || !built || !host),
{
    first || !built || !host
}

/// Whether the window opens after a tray check: the tray was usable and its host left.
pub fn show_window_after_check(was_usable: bool, host: bool) -> (r: bool)
    ensures
        r == (was_usable && !host),
{
    was_usable && !host
}

} // verus!
