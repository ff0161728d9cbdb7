//! The supported hardware targets.
//!
//! A closed set of device variants, selected once at startup by a pure
//! function of the detected hardware identity.  Each variant supplies
//! the patch set for the target client and plans its hardware-control
//! commands; running those commands, like all I/O, is the caller's
//! work.

use vstd::prelude::*;
use vstd::string::StrSliceExecFns;
use vstd::string::StringSliceAdditionalSpecFns;

use crate::config::Config;
use crate::patch::{Patch, PatchFile, PatchView};
use crate::text::{
    append_bytes, bytes_eq, contains_pattern, dec_bytes, dec_rep, has_match, trim_bytes, trimmed,
};

verus! {

/// A patch whose two texts are fixed literals.
fn lit_patch(dest: PatchFile, find: &str, repl: &str) -> (p: Patch)
    ensures
        p@ == (PatchView {
            destination: dest,
            text_to_find: find.spec_bytes(),
            replacement_text: repl.spec_bytes(),
        }),
{
    Patch {
        destination: dest,
        text_to_find: find.as_bytes_vec(),
        replacement_text: repl.as_bytes_vec(),
    }
}

/// A patch whose replacement splices a decimal number between two
/// literal texts.
fn num_patch(dest: PatchFile, find: &str, prefix: &str, n: i32, suffix: &str) -> (p: Patch)
    ensures
        p@ == (PatchView {
            destination: dest,
            text_to_find: find.spec_bytes(),
            replacement_text: prefix.spec_bytes() + dec_rep(n as int) + suffix.spec_bytes(),
        }),
{
    let mut repl = prefix.as_bytes_vec();
    let digits = dec_bytes(n);
    append_bytes(&mut repl, &digits);
    let tail = suffix.as_bytes_vec();
    append_bytes(&mut repl, &tail);
    proof {
        assert((prefix.spec_bytes() + dec_rep(n as int)) + suffix.spec_bytes()
            =~= prefix.spec_bytes() + dec_rep(n as int) + suffix.spec_bytes());
    }
    Patch { destination: dest, text_to_find: find.as_bytes_vec(), replacement_text: repl }
}

/// The patches every device gets: raise the power-limit and clock
/// sliders to the device's maxima, report per-application setting
/// changes to the local settings endpoint, and override the resolution
/// of newly installed titles.
pub open spec fn base_patches(max_tdp: i8, max_gpu: i16) -> Seq<PatchView> {
    seq![
        PatchView {
            destination: PatchFile::Chunk,
            text_to_find: ("return[o,t,n,e=>a((()=>p.Get().SetTDPLimit(e)))").spec_bytes(),
            replacement_text: ("return[o,t,").spec_bytes() + dec_rep(max_tdp as int) + (
            ",e=>a((()=>p.Get().SetTDPLimit(e)))").spec_bytes(),
        },
        PatchView {
            destination: PatchFile::Chunk,
            text_to_find: (
            "return[o,t,n,e=>a((()=>p.Get().SetGPUPerformanceManualMhz(e)))").spec_bytes(),
            replacement_text: ("return[o,t,").spec_bytes() + dec_rep(max_gpu as int) + (
            ",e=>a((()=>p.Get().SetGPUPerformanceManualMhz(e)))").spec_bytes(),
        },
        PatchView {
            destination: PatchFile::Chunk,
            text_to_find: ("const t=c.Hm.deserializeBinary(e).toObject();Object.keys(t)").spec_bytes(),
            replacement_text: (
            "const t=c.Hm.deserializeBinary(e).toObject(); console.log(t); fetch(`http://localhost:1338/update_settings`, { method: 'POST',  headers: {'Content-Type': 'application/json'}, body: JSON.stringify(t.settings)}); Object.keys(t)").spec_bytes(),
        },
        PatchView {
            destination: PatchFile::Chunk,
            text_to_find: (
            "DownloadComplete_Title\"),r=Ue(n,t.data.appid());const s=(0,x.Q2)();").spec_bytes(),
            replacement_text: (
            "DownloadComplete_Title\"),r=Ue(n,t.data.appid()); SteamClient.Apps.GetResolutionOverrideForApp(t.data.appid()).then(res => res === \"Default\" && SteamClient.Apps.SetAppResolutionOverride(t.data.appid(), \"Native\")); const s=(0,x.Q2)();").spec_bytes(),
        },
    ]
}

/// The patches that redraw foreign controller glyphs as the device's
/// own.
pub open spec fn spoof_patches() -> Seq<PatchView> {
    seq![
        PatchView {
            destination: PatchFile::Chunk,
            text_to_find: ("e=\"/steaminputglyphs/xbox_button_logo.svg\"").spec_bytes(),
            replacement_text: (
            "return l.createElement(A.ActionGlyph, { button: n, size: A.EActionGlyphSize.Medium})").spec_bytes(),
        },
        PatchView {
            destination: PatchFile::Chunk,
            text_to_find: ("e=\"/steaminputglyphs/ps4_button_logo.svg\"").spec_bytes(),
            replacement_text: (
            "return l.createElement(A.ActionGlyph, { button: n, size: A.EActionGlyphSize.Medium})").spec_bytes(),
        },
        PatchView {
            destination: PatchFile::Chunk,
            text_to_find: ("\"/steaminputglyphs/ps_color_button_x.svg\"").spec_bytes(),
            replacement_text: ("\"/steaminputglyphs/shared_button_a.svg\"").spec_bytes(),
        },
        PatchView {
            destination: PatchFile::Chunk,
            text_to_find: ("\"/steaminputglyphs/ps_color_button_square.svg\"").spec_bytes(),
            replacement_text: ("\"/steaminputglyphs/shared_button_x.svg\"").spec_bytes(),
        },
        PatchView {
            destination: PatchFile::Chunk,
            text_to_find: ("\"/steaminputglyphs/ps_color_button_triangle.svg\"").spec_bytes(),
            replacement_text: ("\"/steaminputglyphs/shared_button_y.svg\"").spec_bytes(),
        },
        PatchView {
            destination: PatchFile::Chunk,
            text_to_find: ("\"/steaminputglyphs/ps_color_button_circle.svg\"").spec_bytes(),
            replacement_text: ("\"/steaminputglyphs/shared_button_b.svg\"").spec_bytes(),
        },
        PatchView {
            destination: PatchFile::Chunk,
            text_to_find: ("\"/steaminputglyphs/ps4_button_options.svg\"").spec_bytes(),
            replacement_text: ("\"/steaminputglyphs/sd_button_menu.svg\"").spec_bytes(),
        },
    ]
}

/// The patches that redraw the button glyphs in the Nintendo layout.
pub open spec fn nintendo_patches() -> Seq<PatchView> {
    seq![
        PatchView {
            destination: PatchFile::Chunk,
            text_to_find: ("e=\"/steaminputglyphs/xbox_button_logo.svg\"").spec_bytes(),
            replacement_text: (
            "return l.createElement(A.ActionGlyph, { button: n, size: A.EActionGlyphSize.Medium})").spec_bytes(),
        },
        PatchView {
            destination: PatchFile::Chunk,
            text_to_find: ("e=\"/steaminputglyphs/ps4_button_logo.svg\"").spec_bytes(),
            replacement_text: (
            "return l.createElement(A.ActionGlyph, { button: n, size: A.EActionGlyphSize.Medium})").spec_bytes(),
        },
        PatchView {
            destination: PatchFile::Chunk,
            text_to_find: ("\"/steaminputglyphs/shared_color_button_a.svg\"").spec_bytes(),
            replacement_text: ("\"/steaminputglyphs/shared_button_b.svg\"").spec_bytes(),
        },
        PatchView {
            destination: PatchFile::Chunk,
            text_to_find: ("\"/steaminputglyphs/shared_color_button_b.svg\"").spec_bytes(),
            replacement_text: ("\"/steaminputglyphs/shared_color_button_a.svg\"").spec_bytes(),
        },
        PatchView {
            destination: PatchFile::Chunk,
            text_to_find: ("\"/steaminputglyphs/shared_color_button_y.svg\"").spec_bytes(),
            replacement_text: ("\"/steaminputglyphs/shared_button_x.svg\"").spec_bytes(),
        },
        PatchView {
            destination: PatchFile::Chunk,
            text_to_find: ("\"/steaminputglyphs/shared_color_button_x.svg\"").spec_bytes(),
            replacement_text: ("\"/steaminputglyphs/shared_color_button_y.svg\"").spec_bytes(),
        },
        PatchView {
            destination: PatchFile::Chunk,
            text_to_find: ("\"/steaminputglyphs/ps4_button_options.svg\"").spec_bytes(),
            replacement_text: ("\"/steaminputglyphs/sd_button_menu.svg\"").spec_bytes(),
        },
    ]
}

/// The patch that exposes the target's system-key handler, so mapped
/// buttons can drive the UI; it targets the main library script.
pub open spec fn library_patch() -> PatchView {
    PatchView {
        destination: PatchFile::Library,
        text_to_find: (
        "this.m_rgControllers=new Map,\"undefined\"!=typeof SteamClient&&(this.m_hUnregisterControllerDigitalInput").spec_bytes(),
        replacement_text: (
        "this.m_rgControllers=new Map; window.HandleSystemKeyEvents = this.HandleSystemKeyEvents; \"undefined\"!=typeof SteamClient&&(this.m_hUnregisterControllerDigitalInput").spec_bytes(),
    }
}

/// The full patch set of a plain device, by its limits and the glyph
/// options.
pub open spec fn generic_patches(max_tdp: i8, max_gpu: i16, spoof: bool, nintendo: bool) -> Seq<
    PatchView,
> {
    base_patches(max_tdp, max_gpu) + (if spoof {
        spoof_patches()
    } else {
        Seq::<PatchView>::empty()
    }) + (if nintendo {
        nintendo_patches()
    } else {
        Seq::<PatchView>::empty()
    })
}

/// A device with no special hardware handling: power limits go through
/// the generic power tool, and there is no button mapper.
#[derive(PartialEq, Eq, Clone, Copy, Debug)]
pub struct DeviceGeneric {
    pub max_tdp: i8,
    pub max_gpu: i16,
    pub min_gpu: i16,
}

impl DeviceGeneric {
    /// A plain device with the given limits.
    pub fn new(max_tdp: i8, min_gpu: i16, max_gpu: i16) -> (d: DeviceGeneric)
        ensures
            d.max_tdp == max_tdp,
            d.min_gpu == min_gpu,
            d.max_gpu == max_gpu,
    {
        DeviceGeneric { max_tdp, max_gpu, min_gpu }
    }

    /// The device's patch set.
    pub fn get_patches(&self, conf: &Config) -> (out: Vec<Patch>)
        ensures
            out.deep_view() == generic_patches(
                self.max_tdp,
                self.max_gpu,
                conf.spoof_glyphs,
                conf.nintendo_glyphs,
            ),
    {
        let mut out: Vec<Patch> = Vec::new();
        out.push(
            num_patch(
                PatchFile::Chunk,
                "return[o,t,n,e=>a((()=>p.Get().SetTDPLimit(e)))",
                "return[o,t,",
                self.max_tdp as i32,
                ",e=>a((()=>p.Get().SetTDPLimit(e)))",
            ),
        );
        out.push(
            num_patch(
                PatchFile::Chunk,
                "return[o,t,n,e=>a((()=>p.Get().SetGPUPerformanceManualMhz(e)))",
                "return[o,t,",
                self.max_gpu as i32,
                ",e=>a((()=>p.Get().SetGPUPerformanceManualMhz(e)))",
            ),
        );
        out.push(
            lit_patch(
                PatchFile::Chunk,
                "const t=c.Hm.deserializeBinary(e).toObject();Object.keys(t)",
                "const t=c.Hm.deserializeBinary(e).toObject(); console.log(t); fetch(`http://localhost:1338/update_settings`, { method: 'POST',  headers: {'Content-Type': 'application/json'}, body: JSON.stringify(t.settings)}); Object.keys(t)",
            ),
        );
        out.push(
            lit_patch(
                PatchFile::Chunk,
                "DownloadComplete_Title\"),r=Ue(n,t.data.appid());const s=(0,x.Q2)();",
                "DownloadComplete_Title\"),r=Ue(n,t.data.appid()); SteamClient.Apps.GetResolutionOverrideForApp(t.data.appid()).then(res => res === \"Default\" && SteamClient.Apps.SetAppResolutionOverride(t.data.appid(), \"Native\")); const s=(0,x.Q2)();",
            ),
        );
        proof {
            assert(out.deep_view() =~= base_patches(self.max_tdp, self.max_gpu));
        }
        let ghost base = out.deep_view();
        if conf.spoof_glyphs {
            out.push(
                lit_patch(
                    PatchFile::Chunk,
                    "e=\"/steaminputglyphs/xbox_button_logo.svg\"",
                    "return l.createElement(A.ActionGlyph, { button: n, size: A.EActionGlyphSize.Medium})",
                ),
            );
            out.push(
                lit_patch(
                    PatchFile::Chunk,
                    "e=\"/steaminputglyphs/ps4_button_logo.svg\"",
                    "return l.createElement(A.ActionGlyph, { button: n, size: A.EActionGlyphSize.Medium})",
                ),
            );
            out.push(
                lit_patch(
                    PatchFile::Chunk,
                    "\"/steaminputglyphs/ps_color_button_x.svg\"",
                    "\"/steaminputglyphs/shared_button_a.svg\"",
                ),
            );
            out.push(
                lit_patch(
                    PatchFile::Chunk,
                    "\"/steaminputglyphs/ps_color_button_square.svg\"",
                    "\"/steaminputglyphs/shared_button_x.svg\"",
                ),
            );
            out.push(
                lit_patch(
                    PatchFile::Chunk,
                    "\"/steaminputglyphs/ps_color_button_triangle.svg\"",
                    "\"/steaminputglyphs/shared_button_y.svg\"",
                ),
            );
            out.push(
                lit_patch(
                    PatchFile::Chunk,
                    "\"/steaminputglyphs/ps_color_button_circle.svg\"",
                    "\"/steaminputglyphs/shared_button_b.svg\"",
                ),
            );
            out.push(
                lit_patch(
                    PatchFile::Chunk,
                    "\"/steaminputglyphs/ps4_button_options.svg\"",
                    "\"/steaminputglyphs/sd_button_menu.svg\"",
                ),
            );
            proof {
                assert(out.deep_view() =~= base + spoof_patches());
            }
        }
        let ghost mid = out.deep_view();
        if conf.nintendo_glyphs {
            out.push(
                lit_patch(
                    PatchFile::Chunk,
                    "e=\"/steaminputglyphs/xbox_button_logo.svg\"",
                    "return l.createElement(A.ActionGlyph, { button: n, size: A.EActionGlyphSize.Medium})",
                ),
            );
            out.push(
                lit_patch(
                    PatchFile::Chunk,
                    "e=\"/steaminputglyphs/ps4_button_logo.svg\"",
                    "return l.createElement(A.ActionGlyph, { button: n, size: A.EActionGlyphSize.Medium})",
                ),
            );
            out.push(
                lit_patch(
                    PatchFile::Chunk,
                    "\"/steaminputglyphs/shared_color_button_a.svg\"",
                    "\"/steaminputglyphs/shared_button_b.svg\"",
                ),
            );
            out.push(
                lit_patch(
                    PatchFile::Chunk,
                    "\"/steaminputglyphs/shared_color_button_b.svg\"",
                    "\"/steaminputglyphs/shared_color_button_a.svg\"",
                ),
            );
            out.push(
                lit_patch(
                    PatchFile::Chunk,
                    "\"/steaminputglyphs/shared_color_button_y.svg\"",
                    "\"/steaminputglyphs/shared_button_x.svg\"",
                ),
            );
            out.push(
                lit_patch(
                    PatchFile::Chunk,
                    "\"/steaminputglyphs/shared_color_button_x.svg\"",
                    "\"/steaminputglyphs/shared_color_button_y.svg\"",
                ),
            );
            out.push(
                lit_patch(
                    PatchFile::Chunk,
                    "\"/steaminputglyphs/ps4_button_options.svg\"",
                    "\"/steaminputglyphs/sd_button_menu.svg\"",
                ),
            );
            proof {
                assert(out.deep_view() =~= mid + nintendo_patches());
            }
        }
        proof {
            if !conf.spoof_glyphs {
                assert(base + Seq::<PatchView>::empty() =~= base);
            }
            if !conf.nintendo_glyphs {
                assert(mid + Seq::<PatchView>::empty() =~= mid);
            }
            assert(out.deep_view() =~= generic_patches(
                self.max_tdp,
                self.max_gpu,
                conf.spoof_glyphs,
                conf.nintendo_glyphs,
            ));
        }
        out
    }
}

/// The handheld with a dedicated thermal-policy control surface and its
/// own button layout.
#[derive(PartialEq, Eq, Clone, Copy, Debug)]
pub struct DeviceAlly {
    pub device: DeviceGeneric,
}

impl DeviceAlly {
    /// The device with the given limits; its clock floor is fixed.
    pub fn new(tdp: i8, gpu: i16) -> (d: DeviceAlly)
        ensures
            d.device.max_tdp == tdp,
            d.device.min_gpu == 800,
            d.device.max_gpu == gpu,
    {
        DeviceAlly { device: DeviceGeneric::new(tdp, 800, gpu) }
    }

    /// The device's patch set: the plain set plus the system-key patch.
    pub fn get_patches(&self, conf: &Config) -> (out: Vec<Patch>)
        ensures
            out.deep_view() == generic_patches(
                self.device.max_tdp,
                self.device.max_gpu,
                conf.spoof_glyphs,
                conf.nintendo_glyphs,
            ).push(library_patch()),
    {
        let mut out = self.device.get_patches(conf);
        push_library_patch(&mut out);
        out
    }
}

/// The handheld whose buttons arrive as raw reports; patches match the
/// thermal-policy handheld's.
#[derive(PartialEq, Eq, Clone, Copy, Debug)]
pub struct DeviceGo {
    pub device: DeviceGeneric,
}

impl DeviceGo {
    /// The device with the given limits; its clock floor is fixed.
    pub fn new(tdp: i8, gpu: i16) -> (d: DeviceGo)
        ensures
            d.device.max_tdp == tdp,
            d.device.min_gpu == 800,
            d.device.max_gpu == gpu,
    {
        DeviceGo { device: DeviceGeneric::new(tdp, 800, gpu) }
    }

    /// The device's patch set: the plain set plus the system-key patch.
    pub fn get_patches(&self, conf: &Config) -> (out: Vec<Patch>)
        ensures
            out.deep_view() == generic_patches(
                self.device.max_tdp,
                self.device.max_gpu,
                conf.spoof_glyphs,
                conf.nintendo_glyphs,
            ).push(library_patch()),
    {
        let mut out = self.device.get_patches(conf);
        push_library_patch(&mut out);
        out
    }
}

/// The per-application settings the target reports when the user moves
/// a slider.
#[derive(PartialEq, Eq, Clone, Copy, Debug)]
pub struct PerAppSettings {
    pub is_tdp_limit_enabled: Option<bool>,
    pub tdp_limit: Option<i8>,
    pub gpu_performance_manual_mhz: Option<i16>,
}

/// One settings-change message from the target.
#[derive(PartialEq, Eq, Clone, Copy, Debug)]
pub struct SettingsRequest {
    pub per_app: Option<PerAppSettings>,
}

/// One hardware setting a device decides to change.
#[derive(PartialEq, Eq, Clone, Copy, Debug)]
pub enum DeviceAction {
    /// Set the power limit, in watts.
    SetTdp(i8),
    /// Set the graphics clock, in megahertz.
    SetGpu(i16),
    /// Set the thermal policy.
    SetThermalPolicy(i32),
}

/// What a plain device does with a settings change: follow the power
/// limit whenever one is given, and the graphics clock likewise.
pub open spec fn spec_generic_actions(r: SettingsRequest) -> Seq<DeviceAction> {
    match r.per_app {
        None => Seq::<DeviceAction>::empty(),
        Some(pa) => (match pa.tdp_limit {
            Some(t) => seq![DeviceAction::SetTdp(t)],
            None => Seq::<DeviceAction>::empty(),
        }) + (match pa.gpu_performance_manual_mhz {
            Some(g) => seq![DeviceAction::SetGpu(g)],
            None => Seq::<DeviceAction>::empty(),
        }),
    }
}

/// What the thermal-policy handheld does: follow the power limit only
/// while the limit is enabled, and otherwise fall back to the balanced
/// thermal policy; the graphics clock as for a plain device.
pub open spec fn spec_ally_actions(r: SettingsRequest) -> Seq<DeviceAction> {
    match r.per_app {
        None => Seq::<DeviceAction>::empty(),
        Some(pa) => (if pa.is_tdp_limit_enabled == Some(true) {
            match pa.tdp_limit {
                Some(t) => seq![DeviceAction::SetTdp(t)],
                None => Seq::<DeviceAction>::empty(),
            }
        } else {
            seq![DeviceAction::SetThermalPolicy(1)]
        }) + (match pa.gpu_performance_manual_mhz {
            Some(g) => seq![DeviceAction::SetGpu(g)],
            None => Seq::<DeviceAction>::empty(),
        }),
    }
}

/// What the raw-report handheld does: follow the power limit only while
/// the limit is enabled; no thermal-policy fallback.
pub open spec fn spec_go_actions(r: SettingsRequest) -> Seq<DeviceAction> {
    match r.per_app {
        None => Seq::<DeviceAction>::empty(),
        Some(pa) => (if pa.is_tdp_limit_enabled == Some(true) {
            match pa.tdp_limit {
                Some(t) => seq![DeviceAction::SetTdp(t)],
                None => Seq::<DeviceAction>::empty(),
            }
        } else {
            Seq::<DeviceAction>::empty()
        }) + (match pa.gpu_performance_manual_mhz {
            Some(g) => seq![DeviceAction::SetGpu(g)],
            None => Seq::<DeviceAction>::empty(),
        }),
    }
}

impl DeviceGeneric {
    /// Decides the setting changes for one settings message.
    pub fn update_settings(&self, request: &SettingsRequest) -> (acts: Vec<DeviceAction>)
        ensures
            acts@ == spec_generic_actions(*request),
    {
        let mut acts: Vec<DeviceAction> = Vec::new();
        if let Some(pa) = &request.per_app {
            if let Some(t) = pa.tdp_limit {
                acts.push(DeviceAction::SetTdp(t));
            }
            if let Some(g) = pa.gpu_performance_manual_mhz {
                acts.push(DeviceAction::SetGpu(g));
            }
        }
        proof {
            assert(acts@ =~= spec_generic_actions(*request));
        }
        acts
    }
}

impl DeviceAlly {
    /// Decides the setting changes for one settings message.
    pub fn update_settings(&self, request: &SettingsRequest) -> (acts: Vec<DeviceAction>)
        ensures
            acts@ == spec_ally_actions(*request),
    {
        let mut acts: Vec<DeviceAction> = Vec::new();
        if let Some(pa) = &request.per_app {
            match pa.is_tdp_limit_enabled {
                Some(true) => {
                    if let Some(t) = pa.tdp_limit {
                        acts.push(DeviceAction::SetTdp(t));
                    }
                },
                _ => {
                    acts.push(DeviceAction::SetThermalPolicy(1));
                },
            }
            if let Some(g) = pa.gpu_performance_manual_mhz {
                acts.push(DeviceAction::SetGpu(g));
            }
        }
        proof {
            assert(acts@ =~= spec_ally_actions(*request));
        }
        acts
    }
}

impl DeviceGo {
    /// Decides the setting changes for one settings message.
    pub fn update_settings(&self, request: &SettingsRequest) -> (acts: Vec<DeviceAction>)
        ensures
            acts@ == spec_go_actions(*request),
    {
        let mut acts: Vec<DeviceAction> = Vec::new();
        if let Some(pa) = &request.per_app {
            match pa.is_tdp_limit_enabled {
                Some(true) => {
                    if let Some(t) = pa.tdp_limit {
                        acts.push(DeviceAction::SetTdp(t));
                    }
                },
                _ => {},
            }
            if let Some(g) = pa.gpu_performance_manual_mhz {
                acts.push(DeviceAction::SetGpu(g));
            }
        }
        proof {
            assert(acts@ =~= spec_go_actions(*request));
        }
        acts
    }
}

/// One external command to run: a program and its arguments.
pub struct CommandSpec {
    pub argv: Vec<Vec<u8>>,
}

impl View for CommandSpec {
    type V = Seq<Seq<u8>>;

    open spec fn view(&self) -> Seq<Seq<u8>> {
        self.argv.deep_view()
    }
}

impl DeepView for CommandSpec {
    type V = Seq<Seq<u8>>;

    open spec fn deep_view(&self) -> Seq<Seq<u8>> {
        self.view()
    }
}

/// The power-tool invocation that sets a power limit: the sustained
/// limits at the target in milliwatts, the fast limit two watts above.
pub open spec fn ryzenadj_command(tdp: int) -> Seq<Seq<u8>> {
    seq![
        ("ryzenadj").spec_bytes(),
        ("--stapm-limit=").spec_bytes() + dec_rep(tdp * 1000),
        ("--fast-limit=").spec_bytes() + dec_rep(tdp * 1000 + 2000),
        ("--slow-limit=").spec_bytes() + dec_rep(tdp * 1000),
    ]
}

/// An argument made of a literal prefix and a decimal number.
fn num_arg(prefix: &str, n: i32) -> (a: Vec<u8>)
    ensures
        a@ == prefix.spec_bytes() + dec_rep(n as int),
{
    let mut a = prefix.as_bytes_vec();
    let digits = dec_bytes(n);
    append_bytes(&mut a, &digits);
    a
}

impl DeviceGeneric {
    /// Plans the commands that set a power limit on a plain device.
    pub fn set_tdp_commands(&self, tdp: i8) -> (cmds: Vec<CommandSpec>)
        ensures
            cmds.deep_view() == seq![ryzenadj_command(tdp as int)],
    {
        let target: i32 = (tdp as i32) * 1000;
        let boost: i32 = target + 2000;
        let mut argv: Vec<Vec<u8>> = Vec::new();
        argv.push(("ryzenadj").as_bytes_vec());
        argv.push(num_arg("--stapm-limit=", target));
        argv.push(num_arg("--fast-limit=", boost));
        argv.push(num_arg("--slow-limit=", target));
        let mut cmds: Vec<CommandSpec> = Vec::new();
        cmds.push(CommandSpec { argv });
        proof {
            assert(cmds.deep_view()[0] =~~= ryzenadj_command(tdp as int));
            assert(cmds.deep_view() =~~= seq![ryzenadj_command(tdp as int)]);
        }
        cmds
    }
}

/// The thermal policy a power limit implies: quiet below twelve watts,
/// performance up to twenty-five, turbo beyond.
pub open spec fn spec_thermal_policy(tdp: int) -> int {
    if tdp < 12 {
        2
    } else if tdp <= 25 {
        0
    } else {
        1
    }
}

/// The shell commands that write the power limits to the device's own
/// control surface, used when the generic power tool is not wanted.
pub open spec fn ally_native_tdp_commands(tdp: int) -> Seq<Seq<Seq<u8>>> {
    seq![
        seq![
            ("bash").spec_bytes(),
            ("-c").spec_bytes(),
            ("echo ").spec_bytes() + dec_rep(tdp) + (
            " | sudo tee /sys/devices/platform/asus-nb-wmi/ppt_pl1_spl").spec_bytes(),
        ],
        seq![
            ("bash").spec_bytes(),
            ("-c").spec_bytes(),
            ("echo ").spec_bytes() + dec_rep(tdp + 2) + (
            " | sudo tee /sys/devices/platform/asus-nb-wmi/ppt_pl2_sppt").spec_bytes(),
        ],
        seq![
            ("bash").spec_bytes(),
            ("-c").spec_bytes(),
            ("echo ").spec_bytes() + dec_rep(tdp) + (
            " | sudo tee /sys/devices/platform/asus-nb-wmi/ppt_fppt").spec_bytes(),
        ],
    ]
}

/// One native shell command line.
fn ally_native_line(tdp: i32, suffix: &str) -> (c: CommandSpec)
    ensures
        c@ == seq![
            ("bash").spec_bytes(),
            ("-c").spec_bytes(),
            ("echo ").spec_bytes() + dec_rep(tdp as int) + suffix.spec_bytes(),
        ],
{
    let mut line = num_arg("echo ", tdp);
    let tail = suffix.as_bytes_vec();
    append_bytes(&mut line, &tail);
    let mut argv: Vec<Vec<u8>> = Vec::new();
    argv.push(("bash").as_bytes_vec());
    argv.push(("-c").as_bytes_vec());
    argv.push(line);
    proof {
        assert((("echo ").spec_bytes() + dec_rep(tdp as int)) + suffix.spec_bytes()
            =~= ("echo ").spec_bytes() + dec_rep(tdp as int) + suffix.spec_bytes());
        assert(CommandSpec { argv }@ =~~= seq![
            ("bash").spec_bytes(),
            ("-c").spec_bytes(),
            ("echo ").spec_bytes() + dec_rep(tdp as int) + suffix.spec_bytes(),
        ]);
    }
    CommandSpec { argv }
}

impl DeviceAlly {
    /// The thermal policy a power limit implies.
    pub fn thermal_policy(&self, tdp: i8) -> (p: i32)
        ensures
            p as int == spec_thermal_policy(tdp as int),
    {
        if tdp < 12 {
            2
        } else if tdp <= 25 {
            0
        } else {
            1
        }
    }

    /// Plans the commands that set a power limit: the generic power
    /// tool when the legacy option asks for it, else the device's own
    /// control surface.
    pub fn set_tdp_commands(&self, tdp: i8, legacy_tdp: bool) -> (cmds: Vec<CommandSpec>)
        ensures
            cmds.deep_view() == (if legacy_tdp {
                seq![ryzenadj_command(tdp as int)]
            } else {
                ally_native_tdp_commands(tdp as int)
            }),
    {
        if legacy_tdp {
            self.device.set_tdp_commands(tdp)
        } else {
            let target: i32 = tdp as i32;
            let boost: i32 = target + 2;
            let mut cmds: Vec<CommandSpec> = Vec::new();
            cmds.push(
                ally_native_line(
                    target,
                    " | sudo tee /sys/devices/platform/asus-nb-wmi/ppt_pl1_spl",
                ),
            );
            cmds.push(
                ally_native_line(
                    boost,
                    " | sudo tee /sys/devices/platform/asus-nb-wmi/ppt_pl2_sppt",
                ),
            );
            cmds.push(
                ally_native_line(target, " | sudo tee /sys/devices/platform/asus-nb-wmi/ppt_fppt"),
            );
            proof {
                assert(cmds.deep_view() =~~= ally_native_tdp_commands(tdp as int));
            }
            cmds
        }
    }
}

impl DeviceGo {
    /// Plans the commands that set a power limit, as on a plain device.
    pub fn set_tdp_commands(&self, tdp: i8) -> (cmds: Vec<CommandSpec>)
        ensures
            cmds.deep_view() == seq![ryzenadj_command(tdp as int)],
    {
        self.device.set_tdp_commands(tdp)
    }
}

/// The closed set of supported hardware variants.
#[derive(PartialEq, Eq, Clone, Copy, Debug)]
pub enum Device {
    Ally(DeviceAlly),
    Generic(DeviceGeneric),
    Go(DeviceGo),
}

/// The patch set a device supplies.
pub open spec fn spec_device_patches(d: Device, conf: Config) -> Seq<PatchView> {
    match d {
        Device::Generic(g) => generic_patches(
            g.max_tdp,
            g.max_gpu,
            conf.spoof_glyphs,
            conf.nintendo_glyphs,
        ),
        Device::Ally(a) => generic_patches(
            a.device.max_tdp,
            a.device.max_gpu,
            conf.spoof_glyphs,
            conf.nintendo_glyphs,
        ).push(library_patch()),
        Device::Go(g) => generic_patches(
            g.device.max_tdp,
            g.device.max_gpu,
            conf.spoof_glyphs,
            conf.nintendo_glyphs,
        ).push(library_patch()),
    }
}

/// The setting changes a device decides for one settings message.
pub open spec fn spec_device_actions(d: Device, r: SettingsRequest) -> Seq<DeviceAction> {
    match d {
        Device::Generic(_) => spec_generic_actions(r),
        Device::Ally(_) => spec_ally_actions(r),
        Device::Go(_) => spec_go_actions(r),
    }
}

impl Device {
    /// The device's patch set.
    pub fn get_patches(&self, conf: &Config) -> (out: Vec<Patch>)
        ensures
            out.deep_view() == spec_device_patches(*self, *conf),
    {
        match self {
            Device::Generic(g) => g.get_patches(conf),
            Device::Ally(a) => a.get_patches(conf),
            Device::Go(g) => g.get_patches(conf),
        }
    }

    /// Decides the setting changes for one settings message.
    pub fn update_settings(&self, request: &SettingsRequest) -> (acts: Vec<DeviceAction>)
        ensures
            acts@ == spec_device_actions(*self, *request),
    {
        match self {
            Device::Generic(g) => g.update_settings(request),
            Device::Ally(a) => a.update_settings(request),
            Device::Go(g) => g.update_settings(request),
        }
    }
}

/// The device a trimmed hardware identity selects: the known handhelds
/// by their full names, then families by their processor, then a plain
/// device with the configured limits.
pub open spec fn spec_device_for(n: Seq<u8>, conf: Config) -> Device {
    if n == ("AMD Ryzen Z1 Extreme ASUSTeK COMPUTER INC. RC71L").spec_bytes() {
        Device::Ally(
            DeviceAlly {
                device: DeviceGeneric {
                    max_tdp: conf.max_tdp,
                    max_gpu: conf.max_gpu,
                    min_gpu: 800,
                },
            },
        )
    } else if n == ("AMD Ryzen 7 6800U with Radeon Graphics AYANEO GEEK").spec_bytes() {
        Device::Generic(DeviceGeneric { max_tdp: 28, max_gpu: conf.max_gpu, min_gpu: 200 })
    } else if n == ("AMD Ryzen 7 7840U w/ Radeon 780M Graphics AYANEO AYANEO 2S").spec_bytes() {
        Device::Generic(DeviceGeneric { max_tdp: 30, max_gpu: conf.max_gpu, min_gpu: 800 })
    } else if n == ("AMD Ryzen 7 7840U w/ Radeon 780M Graphics AYANEO GEEK 1S").spec_bytes() {
        Device::Generic(DeviceGeneric { max_tdp: 30, max_gpu: conf.max_gpu, min_gpu: 800 })
    } else if n == ("AMD Ryzen 7 6800U with Radeon Graphics GPD G1619-04").spec_bytes() {
        Device::Generic(DeviceGeneric { max_tdp: 28, max_gpu: conf.max_gpu, min_gpu: 200 })
    } else if n == ("AMD Ryzen 7 6800U with Radeon Graphics AOKZOE AOKZOE A1 AR07").spec_bytes() {
        Device::Generic(DeviceGeneric { max_tdp: 28, max_gpu: conf.max_gpu, min_gpu: 200 })
    } else if n == ("AMD Ryzen Z1 Extreme LENOVO LNVNB161216").spec_bytes() {
        Device::Go(
            DeviceGo {
                device: DeviceGeneric {
                    max_tdp: conf.max_tdp,
                    max_gpu: conf.max_gpu,
                    min_gpu: 800,
                },
            },
        )
    } else if has_match(n, ("5560U").spec_bytes()) {
        Device::Generic(DeviceGeneric { max_tdp: 18, max_gpu: conf.max_gpu, min_gpu: 200 })
    } else if has_match(n, ("6800U").spec_bytes()) {
        Device::Generic(DeviceGeneric { max_tdp: 30, max_gpu: conf.max_gpu, min_gpu: 200 })
    } else if has_match(n, ("7840U").spec_bytes()) {
        Device::Generic(DeviceGeneric { max_tdp: 30, max_gpu: conf.max_gpu, min_gpu: 200 })
    } else {
        Device::Generic(
            DeviceGeneric { max_tdp: conf.max_tdp, max_gpu: conf.max_gpu, min_gpu: 800 },
        )
    }
}

/// The device selected for a detected hardware identity, if one was
/// detected at all.
pub open spec fn spec_create_device(name: Option<Seq<u8>>, conf: Config) -> Option<Device> {
    match name {
        None => None,
        Some(n) => Some(spec_device_for(trimmed(n), conf)),
    }
}

/// Selects the device for a detected hardware identity: a pure function
/// of the identity text and the configuration.
pub fn create_device(device_name: &Option<Vec<u8>>, conf: &Config) -> (d: Option<Device>)
    ensures
        d == spec_create_device(device_name.deep_view(), *conf),
{
    let name = match device_name {
        None => {
            return None;
        },
        Some(n) => n,
    };
    let t = trim_bytes(name);
    let d = if bytes_eq(&t, &("AMD Ryzen Z1 Extreme ASUSTeK COMPUTER INC. RC71L").as_bytes_vec()) {
        Device::Ally(DeviceAlly::new(conf.max_tdp, conf.max_gpu))
    } else if bytes_eq(&t, &("AMD Ryzen 7 6800U with Radeon Graphics AYANEO GEEK").as_bytes_vec()) {
        Device::Generic(DeviceGeneric::new(28, 200, conf.max_gpu))
    } else if bytes_eq(
        &t,
        &("AMD Ryzen 7 7840U w/ Radeon 780M Graphics AYANEO AYANEO 2S").as_bytes_vec(),
    ) {
        Device::Generic(DeviceGeneric::new(30, 800, conf.max_gpu))
    } else if bytes_eq(
        &t,
        &("AMD Ryzen 7 7840U w/ Radeon 780M Graphics AYANEO GEEK 1S").as_bytes_vec(),
    ) {
        Device::Generic(DeviceGeneric::new(30, 800, conf.max_gpu))
    } else if bytes_eq(&t, &("AMD Ryzen 7 6800U with Radeon Graphics GPD G1619-04").as_bytes_vec())
    {
        Device::Generic(DeviceGeneric::new(28, 200, conf.max_gpu))
    } else if bytes_eq(
        &t,
        &("AMD Ryzen 7 6800U with Radeon Graphics AOKZOE AOKZOE A1 AR07").as_bytes_vec(),
    ) {
        Device::Generic(DeviceGeneric::new(28, 200, conf.max_gpu))
    } else if bytes_eq(&t, &("AMD Ryzen Z1 Extreme LENOVO LNVNB161216").as_bytes_vec()) {
        Device::Go(DeviceGo::new(conf.max_tdp, conf.max_gpu))
    } else if contains_pattern(&t, &("5560U").as_bytes_vec()) {
        Device::Generic(DeviceGeneric::new(18, 200, conf.max_gpu))
    } else if contains_pattern(&t, &("6800U").as_bytes_vec()) {
        Device::Generic(DeviceGeneric::new(30, 200, conf.max_gpu))
    } else if contains_pattern(&t, &("7840U").as_bytes_vec()) {
        Device::Generic(DeviceGeneric::new(30, 200, conf.max_gpu))
    } else {
        Device::Generic(DeviceGeneric::new(conf.max_tdp, 800, conf.max_gpu))
    };
    proof {
        assert(device_name.deep_view() == Some(name@));
        assert(d == spec_device_for(trimmed(name@), *conf));
    }
    Some(d)
}

/// The processor model line captured from the processor listing, as
/// the pattern `model name\s*:\s*(.*)` captures it: a function of the
/// listing's text alone.
pub uninterp spec fn model_capture_of(text: Seq<char>) -> Option<Seq<char>>;

/// Relies on regex::Regex::captures with the pattern
/// `model name\s*:\s*(.*)`: the first capture group of its first match
/// in the text, if the pattern matches at all.
#[verifier::external_body]
fn capture_model_name(cpuinfo: &str) -> (r: Option<String>)
    ensures
        match r {
            Some(s) => model_capture_of(cpuinfo@) == Some(s@),
            None => model_capture_of(cpuinfo@) is None,
        },
{
    let re = match regex::Regex::new(r"model name\s*:\s*(.*)") {
        Ok(re) => re,
        Err(_) => return None,
    };
    match re.captures(cpuinfo) {
        Some(c) => c.get(1).map(|m| m.as_str().to_string()),
        None => None,
    }
}

/// The hardware identity a processor model, board vendor and board name
/// combine to: each part trimmed, joined by single spaces.
pub open spec fn spec_identity(model: Seq<char>, vendor: Seq<u8>, board: Seq<u8>) -> Seq<u8> {
    trimmed(vstd::utf8::encode_utf8(model)) + (" ").spec_bytes() + trimmed(vendor) + (
    " ").spec_bytes() + trimmed(board)
}

/// Combines the processor listing and the board identification files
/// into the hardware identity that selects a device; none when the
/// listing names no processor model.
pub fn device_identity(cpuinfo: &str, board_vendor: &Vec<u8>, board_name: &Vec<u8>) -> (r: Option<
    Vec<u8>,
>)
    ensures
        match model_capture_of(cpuinfo@) {
            Some(m) => match r {
                Some(v) => v@ == spec_identity(m, board_vendor@, board_name@),
                None => false,
            },
            None => r is None,
        },
{
    let model = match capture_model_name(cpuinfo) {
        Some(m) => m,
        None => {
            return None;
        },
    };
    let mut out = trim_bytes(&model.as_str().as_bytes_vec());
    let space = (" ").as_bytes_vec();
    let vendor = trim_bytes(board_vendor);
    let board = trim_bytes(board_name);
    append_bytes(&mut out, &space);
    append_bytes(&mut out, &vendor);
    append_bytes(&mut out, &space);
    append_bytes(&mut out, &board);
    proof {
        assert(out@ =~= spec_identity(
            match model_capture_of(cpuinfo@) {
                Some(m) => m,
                None => Seq::<char>::empty(),
            },
            board_vendor@,
            board_name@,
        ));
    }
    Some(out)
}

/// Whether a raw-device description names the raw-report handheld's
/// controller, in either of its two input modes.
pub open spec fn spec_uevent_matches_controller(contents: Seq<u8>) -> bool {
    has_match(contents, ("Legion Controller for Windows").spec_bytes()) || has_match(
        contents,
        ("Legion-Controller 1-A7").spec_bytes(),
    )
}

/// Whether a raw-device description names the raw-report handheld's
/// controller.
pub fn uevent_matches_controller(contents: &Vec<u8>) -> (r: bool)
    ensures
        r == spec_uevent_matches_controller(contents@),
{
    contains_pattern(contents, &("Legion Controller for Windows").as_bytes_vec())
        || contains_pattern(contents, &("Legion-Controller 1-A7").as_bytes_vec())
}

/// A logical button of the handheld's extra hardware keys.
#[derive(PartialEq, Eq, Structural, Clone, Copy, Debug)]
pub enum ButtonAction {
    /// Open the quick-access menu.
    ShowQuickAccess,
    /// Open the main menu.
    ShowMainMenu,
    /// The rear lower button.
    RearLower,
}

/// The button a key event of the thermal-policy handheld's extra keys
/// maps to, on release.
pub open spec fn spec_ally_button(key_code: u16, value: i32) -> Option<ButtonAction> {
    if value == 0 {
        if key_code == 148 {
            Some(ButtonAction::ShowQuickAccess)
        } else if key_code == 186 {
            Some(ButtonAction::ShowMainMenu)
        } else if key_code == 185 {
            Some(ButtonAction::RearLower)
        } else {
            None
        }
    } else {
        None
    }
}

/// Decodes one key event of the thermal-policy handheld.
pub fn ally_button_action(key_code: u16, value: i32) -> (r: Option<ButtonAction>)
    ensures
        r == spec_ally_button(key_code, value),
{
    if value == 0 {
        if key_code == 148 {
            Some(ButtonAction::ShowQuickAccess)
        } else if key_code == 186 {
            Some(ButtonAction::ShowMainMenu)
        } else if key_code == 185 {
            Some(ButtonAction::RearLower)
        } else {
            None
        }
    } else {
        None
    }
}

/// The button a raw report of the raw-report handheld maps to: only a
/// whole report that differs from the previous one counts.
pub open spec fn spec_go_button(previous: Seq<u8>, data: Seq<u8>) -> Option<ButtonAction> {
    if data.len() == 64 && previous != data {
        if data[18] == 64 {
            Some(ButtonAction::ShowQuickAccess)
        } else if data[18] == 128 {
            Some(ButtonAction::ShowMainMenu)
        } else {
            None
        }
    } else {
        None
    }
}

/// Decodes one raw report of the raw-report handheld.
pub fn go_button_action(previous: &Vec<u8>, data: &Vec<u8>) -> (r: Option<ButtonAction>)
    ensures
        r == spec_go_button(previous@, data@),
{
    if data.len() == 64 && !bytes_eq(previous, data) {
        let b = data[18];
        if b == 64 {
            Some(ButtonAction::ShowQuickAccess)
        } else if b == 128 {
            Some(ButtonAction::ShowMainMenu)
        } else {
            None
        }
    } else {
        None
    }
}

/// The script a button injects into the target over the remote control
/// channel.
pub open spec fn spec_button_script(a: ButtonAction) -> Seq<char> {
    match a {
        ButtonAction::ShowQuickAccess => (
        "GamepadNavTree.m_Controller.OnButtonActionInternal(true, 28, 2)")@,
        ButtonAction::ShowMainMenu => (
        "GamepadNavTree.m_Controller.OnButtonActionInternal(true, 27, 2); console.log(\"Show Menu\");")@,
        ButtonAction::RearLower => (
        "GamepadNavTree.m_Controller.OnButtonActionInternal(true, 26, 2); console.log(\"Simulating Rear right lower SteamDeck button\");")@,
    }
}

/// The script a button injects.
pub fn button_script(a: ButtonAction) -> (s: &'static str)
    ensures
        s@ == spec_button_script(a),
{
    match a {
        ButtonAction::ShowQuickAccess => {
            "GamepadNavTree.m_Controller.OnButtonActionInternal(true, 28, 2)"
        },
        ButtonAction::ShowMainMenu => {
            "GamepadNavTree.m_Controller.OnButtonActionInternal(true, 27, 2); console.log(\"Show Menu\");"
        },
        ButtonAction::RearLower => {
            "GamepadNavTree.m_Controller.OnButtonActionInternal(true, 26, 2); console.log(\"Simulating Rear right lower SteamDeck button\");"
        },
    }
}

/// Appends the system-key patch to a patch set.
fn push_library_patch(out: &mut Vec<Patch>)
    ensures
        final(out).deep_view() == old(out).deep_view().push(library_patch()),
{
    let p = lit_patch(
        PatchFile::Library,
        "this.m_rgControllers=new Map,\"undefined\"!=typeof SteamClient&&(this.m_hUnregisterControllerDigitalInput",
        "this.m_rgControllers=new Map; window.HandleSystemKeyEvents = this.HandleSystemKeyEvents; \"undefined\"!=typeof SteamClient&&(this.m_hUnregisterControllerDigitalInput",
    );
    out.push(p);
    proof {
        assert(out.deep_view() =~= old(out).deep_view().push(library_patch()));
    }
}

} // verus!
