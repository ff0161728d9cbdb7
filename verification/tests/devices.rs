use steam_patch::config::{
    default_auto_nkey_recovery, default_gpu_control, default_legacy_tdp, default_main_enabled,
    default_mapper, default_max_gpu, default_max_tdp, default_tdp_control, Config,
};
use steam_patch::devices::{
    ally_button_action, button_script, create_device, device_identity, go_button_action,
    uevent_matches_controller, ButtonAction, Device, DeviceAction, DeviceAlly, DeviceGeneric,
    DeviceGo, PerAppSettings, SettingsRequest,
};
use steam_patch::patch::PatchFile;

fn conf() -> Config {
    Config::defaults()
}

#[test]
fn config_defaults() {
    let c = conf();
    assert!(!c.main_enabled);
    assert!(c.tdp_control);
    assert!(c.gpu_control);
    assert_eq!(c.max_tdp, 15);
    assert_eq!(c.max_gpu, 2000);
    assert!(c.mapper);
    assert!(c.legacy_tdp);
    assert!(!c.auto_nkey_recovery);
    assert!(!c.spoof_glyphs);
    assert!(!c.nintendo_glyphs);
    assert_eq!(default_main_enabled(), false);
    assert_eq!(default_tdp_control(), true);
    assert_eq!(default_gpu_control(), true);
    assert_eq!(default_max_tdp(), 15);
    assert_eq!(default_max_gpu(), 2000);
    assert_eq!(default_mapper(), true);
    assert_eq!(default_legacy_tdp(), true);
    assert_eq!(default_auto_nkey_recovery(), false);
}

#[test]
fn generic_patch_set_embeds_the_limits() {
    let d = DeviceGeneric::new(15, 800, 2000);
    let patches = d.get_patches(&conf());
    assert_eq!(patches.len(), 4);
    assert_eq!(
        patches[0].text_to_find,
        b"return[o,t,n,e=>a((()=>p.Get().SetTDPLimit(e)))".to_vec()
    );
    assert_eq!(
        patches[0].replacement_text,
        format!("return[o,t,{:?},e=>a((()=>p.Get().SetTDPLimit(e)))", 15i8).into_bytes()
    );
    assert_eq!(
        patches[1].replacement_text,
        format!(
            "return[o,t,{:?},e=>a((()=>p.Get().SetGPUPerformanceManualMhz(e)))",
            2000i16
        )
        .into_bytes()
    );
    for p in &patches {
        assert_eq!(p.destination, PatchFile::Chunk);
    }
}

#[test]
fn glyph_options_extend_the_patch_set() {
    let d = DeviceGeneric::new(15, 800, 2000);
    let mut c = conf();
    c.spoof_glyphs = true;
    assert_eq!(d.get_patches(&c).len(), 11);
    c.nintendo_glyphs = true;
    assert_eq!(d.get_patches(&c).len(), 18);
    c.spoof_glyphs = false;
    let patches = d.get_patches(&c);
    assert_eq!(patches.len(), 11);
    assert_eq!(
        patches[4].text_to_find,
        b"e=\"/steaminputglyphs/xbox_button_logo.svg\"".to_vec()
    );
    assert_eq!(
        patches[6].text_to_find,
        b"\"/steaminputglyphs/shared_color_button_a.svg\"".to_vec()
    );
    assert_eq!(
        patches[6].replacement_text,
        b"\"/steaminputglyphs/shared_button_b.svg\"".to_vec()
    );
}

#[test]
fn handheld_patch_sets_add_the_system_key_patch() {
    let ally = DeviceAlly::new(30, 2700);
    let patches = ally.get_patches(&conf());
    assert_eq!(patches.len(), 5);
    let last = &patches[4];
    assert_eq!(last.destination, PatchFile::Library);
    assert!(last
        .text_to_find
        .windows(b"m_rgControllers".len())
        .any(|w| w == b"m_rgControllers"));
    let go = DeviceGo::new(25, 2533);
    let patches = go.get_patches(&conf());
    assert_eq!(patches.len(), 5);
    assert_eq!(patches[4].destination, PatchFile::Library);
    assert_eq!(
        patches[0].replacement_text,
        format!("return[o,t,{:?},e=>a((()=>p.Get().SetTDPLimit(e)))", 25i8).into_bytes()
    );
}

#[test]
fn generic_settings_follow_every_given_value() {
    let d = DeviceGeneric::new(15, 800, 2000);
    let req = SettingsRequest {
        per_app: Some(PerAppSettings {
            is_tdp_limit_enabled: None,
            tdp_limit: Some(9),
            gpu_performance_manual_mhz: Some(1600),
        }),
    };
    assert_eq!(
        d.update_settings(&req),
        vec![DeviceAction::SetTdp(9), DeviceAction::SetGpu(1600)]
    );
    assert_eq!(d.update_settings(&SettingsRequest { per_app: None }), vec![]);
}

#[test]
fn ally_settings_fall_back_to_thermal_policy() {
    let d = DeviceAlly::new(30, 2700);
    let enabled = SettingsRequest {
        per_app: Some(PerAppSettings {
            is_tdp_limit_enabled: Some(true),
            tdp_limit: Some(12),
            gpu_performance_manual_mhz: None,
        }),
    };
    assert_eq!(d.update_settings(&enabled), vec![DeviceAction::SetTdp(12)]);
    let disabled = SettingsRequest {
        per_app: Some(PerAppSettings {
            is_tdp_limit_enabled: Some(false),
            tdp_limit: Some(12),
            gpu_performance_manual_mhz: Some(900),
        }),
    };
    assert_eq!(
        d.update_settings(&disabled),
        vec![DeviceAction::SetThermalPolicy(1), DeviceAction::SetGpu(900)]
    );
}

#[test]
fn go_settings_have_no_thermal_fallback() {
    let d = DeviceGo::new(25, 2533);
    let disabled = SettingsRequest {
        per_app: Some(PerAppSettings {
            is_tdp_limit_enabled: None,
            tdp_limit: Some(12),
            gpu_performance_manual_mhz: None,
        }),
    };
    assert_eq!(d.update_settings(&disabled), vec![]);
    let enabled = SettingsRequest {
        per_app: Some(PerAppSettings {
            is_tdp_limit_enabled: Some(true),
            tdp_limit: Some(12),
            gpu_performance_manual_mhz: None,
        }),
    };
    assert_eq!(d.update_settings(&enabled), vec![DeviceAction::SetTdp(12)]);
}

#[test]
fn generic_power_commands_use_the_power_tool() {
    let d = DeviceGeneric::new(15, 800, 2000);
    let cmds = d.set_tdp_commands(15);
    assert_eq!(cmds.len(), 1);
    let argv: Vec<Vec<u8>> = cmds[0].argv.clone();
    assert_eq!(argv[0], b"ryzenadj".to_vec());
    assert_eq!(argv[1], b"--stapm-limit=15000".to_vec());
    assert_eq!(argv[2], b"--fast-limit=17000".to_vec());
    assert_eq!(argv[3], b"--slow-limit=15000".to_vec());
}

#[test]
fn ally_power_commands_honour_the_legacy_option() {
    let d = DeviceAlly::new(30, 2700);
    let legacy = d.set_tdp_commands(10, true);
    assert_eq!(legacy.len(), 1);
    assert_eq!(legacy[0].argv[0], b"ryzenadj".to_vec());
    let native = d.set_tdp_commands(10, false);
    assert_eq!(native.len(), 3);
    assert_eq!(native[0].argv[0], b"bash".to_vec());
    assert_eq!(native[0].argv[1], b"-c".to_vec());
    assert_eq!(
        native[0].argv[2],
        b"echo 10 | sudo tee /sys/devices/platform/asus-nb-wmi/ppt_pl1_spl".to_vec()
    );
    assert_eq!(
        native[1].argv[2],
        b"echo 12 | sudo tee /sys/devices/platform/asus-nb-wmi/ppt_pl2_sppt".to_vec()
    );
    assert_eq!(
        native[2].argv[2],
        b"echo 10 | sudo tee /sys/devices/platform/asus-nb-wmi/ppt_fppt".to_vec()
    );
}

#[test]
fn thermal_policy_bands() {
    let d = DeviceAlly::new(30, 2700);
    assert_eq!(d.thermal_policy(11), 2);
    assert_eq!(d.thermal_policy(12), 0);
    assert_eq!(d.thermal_policy(25), 0);
    assert_eq!(d.thermal_policy(26), 1);
    assert_eq!(d.thermal_policy(-5), 2);
}

#[test]
fn device_selection_by_exact_name() {
    let c = conf();
    let name = Some(b"AMD Ryzen Z1 Extreme ASUSTeK COMPUTER INC. RC71L".to_vec());
    assert!(matches!(create_device(&name, &c), Some(Device::Ally(_))));
    let name = Some(b"AMD Ryzen Z1 Extreme LENOVO LNVNB161216".to_vec());
    assert!(matches!(create_device(&name, &c), Some(Device::Go(_))));
    let name = Some(b"AMD Ryzen 7 6800U with Radeon Graphics AYANEO GEEK".to_vec());
    match create_device(&name, &c) {
        Some(Device::Generic(g)) => {
            assert_eq!(g.max_tdp, 28);
            assert_eq!(g.min_gpu, 200);
            assert_eq!(g.max_gpu, 2000);
        }
        other => panic!("unexpected device: {:?}", other),
    }
}

#[test]
fn device_selection_by_processor_family_and_default() {
    let c = conf();
    let name = Some(b"AMD Ryzen 5 5560U with Radeon Graphics SOMEVENDOR BOARD".to_vec());
    match create_device(&name, &c) {
        Some(Device::Generic(g)) => assert_eq!(g.max_tdp, 18),
        other => panic!("unexpected device: {:?}", other),
    }
    let name = Some(b"Intel Celeron N WHOKNOWS".to_vec());
    match create_device(&name, &c) {
        Some(Device::Generic(g)) => {
            assert_eq!(g.max_tdp, 15);
            assert_eq!(g.min_gpu, 800);
        }
        other => panic!("unexpected device: {:?}", other),
    }
    assert!(matches!(create_device(&None, &c), None));
}

#[test]
fn device_selection_trims_the_identity() {
    let c = conf();
    let name = Some(b"  AMD Ryzen Z1 Extreme LENOVO LNVNB161216\n".to_vec());
    assert!(matches!(create_device(&name, &c), Some(Device::Go(_))));
}

#[test]
fn identity_extraction_from_processor_listing() {
    let cpuinfo = "processor\t: 0\nvendor_id\t: AuthenticAMD\nmodel name\t: AMD Ryzen Z1 Extreme\ncpu MHz\t\t: 3300.000\n";
    let identity = device_identity(
        cpuinfo,
        &b"LENOVO\n".to_vec(),
        &b"LNVNB161216\n".to_vec(),
    );
    assert_eq!(
        identity,
        Some(b"AMD Ryzen Z1 Extreme LENOVO LNVNB161216".to_vec())
    );
}

#[test]
fn identity_extraction_without_model_line_fails() {
    let cpuinfo = "processor\t: 0\nvendor_id\t: AuthenticAMD\n";
    assert_eq!(device_identity(cpuinfo, &b"V".to_vec(), &b"B".to_vec()), None);
}

#[test]
fn ally_buttons_fire_on_release_only() {
    assert_eq!(ally_button_action(148, 0), Some(ButtonAction::ShowQuickAccess));
    assert_eq!(ally_button_action(186, 0), Some(ButtonAction::ShowMainMenu));
    assert_eq!(ally_button_action(185, 0), Some(ButtonAction::RearLower));
    assert_eq!(ally_button_action(148, 1), None);
    assert_eq!(ally_button_action(30, 0), None);
}

#[test]
fn go_buttons_decode_whole_fresh_reports_only() {
    let mut report = vec![0u8; 64];
    report[18] = 64;
    let prev = vec![0u8; 64];
    assert_eq!(
        go_button_action(&prev, &report),
        Some(ButtonAction::ShowQuickAccess)
    );
    report[18] = 128;
    assert_eq!(
        go_button_action(&prev, &report),
        Some(ButtonAction::ShowMainMenu)
    );
    assert_eq!(go_button_action(&report, &report), None);
    let short = vec![64u8; 20];
    assert_eq!(go_button_action(&prev, &short), None);
    let idle = vec![0u8; 64];
    assert_eq!(go_button_action(&prev, &idle), None);
}

#[test]
fn button_scripts_drive_the_ui() {
    assert_eq!(
        button_script(ButtonAction::ShowQuickAccess),
        "GamepadNavTree.m_Controller.OnButtonActionInternal(true, 28, 2)"
    );
    assert!(button_script(ButtonAction::ShowMainMenu).contains("27"));
    assert!(button_script(ButtonAction::RearLower).contains("26"));
}

#[test]
fn controller_uevent_matching() {
    assert!(uevent_matches_controller(
        &b"HID_NAME=Legion Controller for Windows\n".to_vec()
    ));
    assert!(uevent_matches_controller(
        &b"HID_NAME=Legion-Controller 1-A7\n".to_vec()
    ));
    assert!(!uevent_matches_controller(&b"HID_NAME=Some Mouse\n".to_vec()));
}
