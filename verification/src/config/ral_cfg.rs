use vstd::prelude::*;

use crate::utils::number::{
    parse_i32_radix, parse_i32_radix_chars, skip_hex_prefixes, strip_hex_prefixes,
};
use crate::utils::string::{
    chars_match_str, find_char, index_of_char, lines, lines_from, next_line, str_chars,
    string_from_chars, trim, trim_bounds,
};

verus! {

/// The settings read from the game's `RAL.CFG` file, one `i32` per setting.
#[derive(Debug)]
pub struct RalCfgProperties {
    pub no_task_switch: i32,
    pub no_pri_change: i32,
    pub ignore_mmx: i32,
    pub ignore_katmai: i32,
    pub ignore_amd_k3d: i32,
    pub alt_mem_enable: i32,
    pub alt_mem_heap_size: i32,
    pub no_audio: i32,
    pub no_sound: i32,
    pub no_cd_audio: i32,
    pub no_music: i32,
    pub audio_base_freq: i32,
    pub ignore_ds3d: i32,
    pub ignore_dsv: i32,
    pub ignore_eax: i32,
    pub ignore_a3d: i32,
    pub wav_heap_size: i32,
    pub bundle_heap_size: i32,
    pub image_heap_size: i32,
    pub game_gfx_heap_size: i32,
    pub force_dx5: i32,
    pub force_no3d_card: i32,
    pub ignore_primary: i32,
    pub ignore_secondary: i32,
    pub agp_mode: i32,
    pub force3d_trans: i32,
    pub force3d_alpha: i32,
    pub force3d_shadow: i32,
    pub force3d_fogging: i32,
    pub text_flash_mode: i32,
    pub video_mode_main: i32,
    pub video_mode_game: i32,
    pub v3_driver_fix: i32,
    pub no_png_decode: i32,
    pub no_joy: i32,
    pub joy_mode: i32,
    pub joy_code: i32,
    pub joy_lower_dz: i32,
    pub joy_upper_dz: i32,
    pub no_force_feedback: i32,
    pub joy_ff_gain: i32,
    pub merge_joy: i32,
    pub no_network: i32,
    pub inet_port: i32,
    pub screen_snapshot: i32,
    pub frame_counter: i32,
    pub no_replay: i32,
    pub replay_keys: i32,
    pub log_file: i32,
    pub no_fmv: i32,
    pub key: i32,
    pub all_secret_cars: i32,
    pub secret_car: i32,
    pub use_savegame_keys: i32,
    pub sensible_saving: i32,
    pub no_precipitation: i32,
    pub season_code: i32,
    pub no_auto_neutral: i32,
    pub non_linear_steering: i32,
    pub wr_replay_enable: i32,
    pub wr_replay_rate: i32,
    pub alt2_ax_code: i32,
    pub fiz_patch: i32,
    pub patch_max_draw_distance: i32,
    pub patch_sticky_grass: i32,
    pub patch_gravity: i32,
    pub patch_damages: i32,
    pub patch_brake_grip: i32,
    pub patch_accel_grip: i32,
    pub patch_slide_grip: i32,
    pub patch_grip_grass: i32,
    pub patch_grip_tarmac: i32,
    pub patch_grip_snow: i32,
    pub patch_grip_mud: i32,
    pub patch_grip_gravel: i32,
    pub lex_control: i32,
    pub sparks_mode: i32,
}

impl View for RalCfgProperties {
    type V = Seq<i32>;

    /// The settings in declaration order.
    open spec fn view(&self) -> Seq<i32> {
        seq![
            self.no_task_switch,
            self.no_pri_change,
            self.ignore_mmx,
            self.ignore_katmai,
            self.ignore_amd_k3d,
            self.alt_mem_enable,
            self.alt_mem_heap_size,
            self.no_audio,
            self.no_sound,
            self.no_cd_audio,
            self.no_music,
            self.audio_base_freq,
            self.ignore_ds3d,
            self.ignore_dsv,
            self.ignore_eax,
            self.ignore_a3d,
            self.wav_heap_size,
            self.bundle_heap_size,
            self.image_heap_size,
            self.game_gfx_heap_size,
            self.force_dx5,
            self.force_no3d_card,
            self.ignore_primary,
            self.ignore_secondary,
            self.agp_mode,
            self.force3d_trans,
            self.force3d_alpha,
            self.force3d_shadow,
            self.force3d_fogging,
            self.text_flash_mode,
            self.video_mode_main,
            self.video_mode_game,
            self.v3_driver_fix,
            self.no_png_decode,
            self.no_joy,
            self.joy_mode,
            self.joy_code,
            self.joy_lower_dz,
            self.joy_upper_dz,
            self.no_force_feedback,
            self.joy_ff_gain,
            self.merge_joy,
            self.no_network,
            self.inet_port,
            self.screen_snapshot,
            self.frame_counter,
            self.no_replay,
            self.replay_keys,
            self.log_file,
            self.no_fmv,
            self.key,
            self.all_secret_cars,
            self.secret_car,
            self.use_savegame_keys,
            self.sensible_saving,
            self.no_precipitation,
            self.season_code,
            self.no_auto_neutral,
            self.non_linear_steering,
            self.wr_replay_enable,
            self.wr_replay_rate,
            self.alt2_ax_code,
            self.fiz_patch,
            self.patch_max_draw_distance,
            self.patch_sticky_grass,
            self.patch_gravity,
            self.patch_damages,
            self.patch_brake_grip,
            self.patch_accel_grip,
            self.patch_slide_grip,
            self.patch_grip_grass,
            self.patch_grip_tarmac,
            self.patch_grip_snow,
            self.patch_grip_mud,
            self.patch_grip_gravel,
            self.lex_control,
            self.sparks_mode,
        ]
    }
}

/// Number of settings held by [`RalCfgProperties`].
pub const PROPERTY_COUNT: usize = 77;

/// The configuration keys that `set_property` recognises, in field order:
/// the key at index `i` names the setting at index `i` of the view.
#[verifier::opaque]
pub open spec fn property_key_names() -> Seq<&'static str> {
    seq![
        "notaskswitch",
        "noprichange",
        "ignoremmx",
        "ignorekatmai",
        "ignoreamd3d",
        "altmemenable",
        "altmemheapsize",
        "noaudio",
        "nosound",
        "nocdaudio",
        "nomusic",
        "audiobasefreq",
        "ignoreds3d",
        "ignoredsv",
        "ignoreeax",
        "ignorea3d",
        "wavheapsize",
        "bundleheapsize",
        "imageheapsize",
        "gamegfxheapsize",
        "forcedx5",
        "forceno3dcard",
        "ignoreprimary",
        "ignoresecondary",
        "agpmode",
        "force3dtrans",
        "force3dalpha",
        "force3dshadow",
        "force3dfogging",
        "textflashmode",
        "videomodemain",
        "videomodegame",
        "v3driverfix",
        "nopngdecode",
        "nojoy",
        "joymode",
        "joycode",
        "joylowerdz",
        "joyupperdz",
        "noforcefeedback",
        "joyffgain",
        "mergejoy",
        "nonetwork",
        "inetport",
        "screensnapshot",
        "framecounter",
        "noreplay",
        "replaykeys",
        "logfile",
        "nofmv",
        "key",
        "allsecretcars",
        "secretcar",
        "usesavegamekeys",
        "sensiblesaving",
        "noprecipitation",
        "seasoncode",
        "noautoneutral",
        "nonlinearsteering",
        "wrreplayenable",
        "wrreplayrate",
        "alt2axcode",
        "fizpatch",
        "patchmaxdrawdistance",
        "patchstickygrass",
        "patchgravity",
        "patchdamages",
        "patchbrakegrip",
        "patchaccelgrip",
        "patchslidegrip",
        "patchgripgrass",
        "patchgriptarmac",
        "patchgripsnow",
        "patchgripmud",
        "patchgripgravel",
        "lexcontrol",
        "sparksmode",
    ]
}

/// The configuration keys that `get_address` recognises; the key at index `i`
/// is the one whose game variable lives at `property_addresses()[i]`.
#[verifier::opaque]
pub open spec fn address_key_names() -> Seq<&'static str> {
    seq![
        "notaskswitch",
        "noprichange",
        "ignoremmx",
        "ignorekatmai",
        "ignoreamdk3d",
        "altmemenable",
        "altmemheapsize",
        "noaudio",
        "nosound",
        "nocdaudio",
        "nomusic",
        "audiobasefreq",
        "ignoreds3d",
        "ignoredsv",
        "ignoreeax",
        "ignorea3d",
        "wavheapsize",
        "bundleheapsize",
        "imageheapsize",
        "gamegfxheapsize",
        "forcedx5",
        "forceno3dcard",
        "ignoreprimary",
        "ignoresecondary",
        "agpmode",
        "force3dtrans",
        "force3dalpha",
        "force3dshadow",
        "force3dfogging",
        "textflashmode",
        "videomodemain",
        "videomodegame",
        "v3driverfix",
        "nopngdecode",
        "nojoy",
        "joymode",
        "joycode",
        "joylowerdz",
        "joyupperdz",
        "noforcefeedback",
        "joyffgain",
        "mergejoy",
        "nonetwork",
        "inetport",
        "screensnapshot",
        "framecounter",
        "noreplay",
        "replaykeys",
        "logfile",
        "nofmv",
        "key",
        "allsecretcars",
        "secretcar",
        "usesavegamekeys",
        "sensiblesaving",
        "noprecipitation",
        "seasoncode",
        "noautoneutral",
        "nonlinearsteering",
        "wrreplayenable",
        "wrreplayrate",
        "alt2axcode",
        "fizpatch",
        "patchmaxdrawdistance",
        "patchstickygrass",
        "patchgravity",
        "patchdamages",
        "patchbrakegrip",
        "patchaccelgrip",
        "patchslidegrip",
        "patchgripgrass",
        "patchgriptarmac",
        "patchgripsnow",
        "patchgripmud",
        "patchgripgravel",
        "lexcontrol",
        "sparksmode",
    ]
}

/// The address of the game variable that each setting is copied to.
#[verifier::opaque]
pub open spec fn property_addresses() -> Seq<usize> {
    seq![
        0x518384usize,
        0x518388usize,
        0x5183ACusize,
        0x5183B4usize,
        0x5183BCusize,
        0x4E0584usize,
        0x4E0588usize,
        0x4F82B4usize,
        0x4F82B4usize,
        0x518104usize,
        0x5069BCusize,
        0x4F82D4usize,
        0x506B42usize,
        0x506C50usize,
        0x506C6Cusize,
        0x506C5Cusize,
        0x5068ECusize,
        0x51B980usize,
        0x519554usize,
        0x5BE894usize,
        0x5AB958usize,
        0x5AB94Cusize,
        0x5AB950usize,
        0x5AB954usize,
        0x5AB95Cusize,
        0x5AB97Cusize,
        0x5AB984usize,
        0x5AB980usize,
        0x5AB988usize,
        0x4F3F74usize,
        0x4F4944usize,
        0x4F4948usize,
        0x624238usize,
        0x51B97Cusize,
        0x4F68DCusize,
        0x4F68E0usize,
        0x4F68E4usize,
        0x4F68E8usize,
        0x4F68ECusize,
        0x4F68F4usize,
        0x4F68F8usize,
        0x4F68FCusize,
        0x52A4B0usize,
        0x52AC24usize,
        0x4F52B4usize,
        0x5EB100usize,
        0x5BEC7Cusize,
        0x5BECA8usize,
        0x4E0098usize,
        0x5BE870usize,
        0x4E052Cusize,
        0x758710usize,
        0x758710usize,
        0x755144usize,
        0x75AAD8usize,
        0x71C800usize,
        0x5BECACusize,
        0x61416Cusize,
        0x4F6900usize,
        0x5C2CEBusize,
        0x5C2CEFusize,
        0x4F68F0usize,
        0x71C6D0usize,
        0x71C6D4usize,
        0x71C6D8usize,
        0x71C6DCusize,
        0x71C6E0usize,
        0x71C6E4usize,
        0x71C6E8usize,
        0x71C6ECusize,
        0x71C6F0usize,
        0x71C6F4usize,
        0x71C6F8usize,
        0x71C6FCusize,
        0x71C700usize,
        0x4E0758usize,
        0x7558DCusize,
    ]
}

/// The characters of each key in `names`.
pub open spec fn key_chars(names: Seq<&'static str>) -> Seq<Seq<char>> {
    names.map_values(|s: &'static str| s@)
}

/// `i` is the first position of `key` in `keys`.
pub open spec fn is_first_match(keys: Seq<Seq<char>>, key: Seq<char>, i: int) -> bool {
    &&& 0 <= i < keys.len()
    &&& keys[i] == key
    &&& forall|j: int| 0 <= j < i ==> keys[j] != key
}

/// The first position of `key` in `keys`, if it occurs there.
pub open spec fn first_index_of(keys: Seq<Seq<char>>, key: Seq<char>) -> Option<int> {
    if exists|i: int| is_first_match(keys, key, i) {
        Some(choose|i: int| is_first_match(keys, key, i))
    } else {
        None
    }
}

/// The setting that `key` names, as an index into the view.
pub open spec fn property_index(key: Seq<char>) -> Option<int> {
    first_index_of(key_chars(property_key_names()), key)
}

/// The address of the game variable that `key` names.
pub open spec fn property_address(key: Seq<char>) -> Option<usize> {
    match first_index_of(key_chars(address_key_names()), key) {
        Some(i) => Some(property_addresses()[i]),
        None => None,
    }
}

/// The settings `p` after the setting named `key` is given `value`; unchanged
/// where `key` names no setting.
pub open spec fn with_property(p: Seq<i32>, key: Seq<char>, value: i32) -> Seq<i32> {
    match property_index(key) {
        Some(i) => p.update(i, value),
        None => p,
    }
}

/// A first match is the only first match.
pub proof fn lemma_first_match_unique(keys: Seq<Seq<char>>, key: Seq<char>, i: int)
    requires
        is_first_match(keys, key, i),
    ensures
        first_index_of(keys, key) == Some(i),
{
    let k = choose|k: int| is_first_match(keys, key, k);
    assert(is_first_match(keys, key, k));
    if k < i {
        assert(keys[k] != key);
    } else if i < k {
        assert(keys[i] != key);
    }
}

/// Where `key` occurs in `keys` at all, it has a first position.
pub proof fn lemma_first_match_exists(keys: Seq<Seq<char>>, key: Seq<char>, i: int)
    requires
        0 <= i < keys.len(),
        keys[i] == key,
    ensures
        first_index_of(keys, key) is Some,
    decreases i,
{
    if exists|j: int| 0 <= j < i && keys[j] == key {
        let j = choose|j: int| 0 <= j < i && keys[j] == key;
        lemma_first_match_exists(keys, key, j);
    } else {
        assert(is_first_match(keys, key, i));
    }
}

/// The keys of `set_property`, for lookups.
fn property_key_table() -> (t: Vec<&'static str>)
    ensures
        t@ == property_key_names(),
        t@.len() == PROPERTY_COUNT,
{
    reveal(property_key_names);
    vec![
        "notaskswitch",
        "noprichange",
        "ignoremmx",
        "ignorekatmai",
        "ignoreamd3d",
        "altmemenable",
        "altmemheapsize",
        "noaudio",
        "nosound",
        "nocdaudio",
        "nomusic",
        "audiobasefreq",
        "ignoreds3d",
        "ignoredsv",
        "ignoreeax",
        "ignorea3d",
        "wavheapsize",
        "bundleheapsize",
        "imageheapsize",
        "gamegfxheapsize",
        "forcedx5",
        "forceno3dcard",
        "ignoreprimary",
        "ignoresecondary",
        "agpmode",
        "force3dtrans",
        "force3dalpha",
        "force3dshadow",
        "force3dfogging",
        "textflashmode",
        "videomodemain",
        "videomodegame",
        "v3driverfix",
        "nopngdecode",
        "nojoy",
        "joymode",
        "joycode",
        "joylowerdz",
        "joyupperdz",
        "noforcefeedback",
        "joyffgain",
        "mergejoy",
        "nonetwork",
        "inetport",
        "screensnapshot",
        "framecounter",
        "noreplay",
        "replaykeys",
        "logfile",
        "nofmv",
        "key",
        "allsecretcars",
        "secretcar",
        "usesavegamekeys",
        "sensiblesaving",
        "noprecipitation",
        "seasoncode",
        "noautoneutral",
        "nonlinearsteering",
        "wrreplayenable",
        "wrreplayrate",
        "alt2axcode",
        "fizpatch",
        "patchmaxdrawdistance",
        "patchstickygrass",
        "patchgravity",
        "patchdamages",
        "patchbrakegrip",
        "patchaccelgrip",
        "patchslidegrip",
        "patchgripgrass",
        "patchgriptarmac",
        "patchgripsnow",
        "patchgripmud",
        "patchgripgravel",
        "lexcontrol",
        "sparksmode",
    ]
}

/// The keys of `get_address`, for lookups.
fn address_key_table() -> (t: Vec<&'static str>)
    ensures
        t@ == address_key_names(),
        t@.len() == PROPERTY_COUNT,
{
    reveal(address_key_names);
    vec![
        "notaskswitch",
        "noprichange",
        "ignoremmx",
        "ignorekatmai",
        "ignoreamdk3d",
        "altmemenable",
        "altmemheapsize",
        "noaudio",
        "nosound",
        "nocdaudio",
        "nomusic",
        "audiobasefreq",
        "ignoreds3d",
        "ignoredsv",
        "ignoreeax",
        "ignorea3d",
        "wavheapsize",
        "bundleheapsize",
        "imageheapsize",
        "gamegfxheapsize",
        "forcedx5",
        "forceno3dcard",
        "ignoreprimary",
        "ignoresecondary",
        "agpmode",
        "force3dtrans",
        "force3dalpha",
        "force3dshadow",
        "force3dfogging",
        "textflashmode",
        "videomodemain",
        "videomodegame",
        "v3driverfix",
        "nopngdecode",
        "nojoy",
        "joymode",
        "joycode",
        "joylowerdz",
        "joyupperdz",
        "noforcefeedback",
        "joyffgain",
        "mergejoy",
        "nonetwork",
        "inetport",
        "screensnapshot",
        "framecounter",
        "noreplay",
        "replaykeys",
        "logfile",
        "nofmv",
        "key",
        "allsecretcars",
        "secretcar",
        "usesavegamekeys",
        "sensiblesaving",
        "noprecipitation",
        "seasoncode",
        "noautoneutral",
        "nonlinearsteering",
        "wrreplayenable",
        "wrreplayrate",
        "alt2axcode",
        "fizpatch",
        "patchmaxdrawdistance",
        "patchstickygrass",
        "patchgravity",
        "patchdamages",
        "patchbrakegrip",
        "patchaccelgrip",
        "patchslidegrip",
        "patchgripgrass",
        "patchgriptarmac",
        "patchgripsnow",
        "patchgripmud",
        "patchgripgravel",
        "lexcontrol",
        "sparksmode",
    ]
}

/// The game addresses, in the order of `address_key_table`.
fn address_table() -> (t: Vec<usize>)
    ensures
        t@ == property_addresses(),
        t@.len() == PROPERTY_COUNT,
{
    reveal(property_addresses);
    vec![
        0x518384usize,
        0x518388usize,
        0x5183ACusize,
        0x5183B4usize,
        0x5183BCusize,
        0x4E0584usize,
        0x4E0588usize,
        0x4F82B4usize,
        0x4F82B4usize,
        0x518104usize,
        0x5069BCusize,
        0x4F82D4usize,
        0x506B42usize,
        0x506C50usize,
        0x506C6Cusize,
        0x506C5Cusize,
        0x5068ECusize,
        0x51B980usize,
        0x519554usize,
        0x5BE894usize,
        0x5AB958usize,
        0x5AB94Cusize,
        0x5AB950usize,
        0x5AB954usize,
        0x5AB95Cusize,
        0x5AB97Cusize,
        0x5AB984usize,
        0x5AB980usize,
        0x5AB988usize,
        0x4F3F74usize,
        0x4F4944usize,
        0x4F4948usize,
        0x624238usize,
        0x51B97Cusize,
        0x4F68DCusize,
        0x4F68E0usize,
        0x4F68E4usize,
        0x4F68E8usize,
        0x4F68ECusize,
        0x4F68F4usize,
        0x4F68F8usize,
        0x4F68FCusize,
        0x52A4B0usize,
        0x52AC24usize,
        0x4F52B4usize,
        0x5EB100usize,
        0x5BEC7Cusize,
        0x5BECA8usize,
        0x4E0098usize,
        0x5BE870usize,
        0x4E052Cusize,
        0x758710usize,
        0x758710usize,
        0x755144usize,
        0x75AAD8usize,
        0x71C800usize,
        0x5BECACusize,
        0x61416Cusize,
        0x4F6900usize,
        0x5C2CEBusize,
        0x5C2CEFusize,
        0x4F68F0usize,
        0x71C6D0usize,
        0x71C6D4usize,
        0x71C6D8usize,
        0x71C6DCusize,
        0x71C6E0usize,
        0x71C6E4usize,
        0x71C6E8usize,
        0x71C6ECusize,
        0x71C6F0usize,
        0x71C6F4usize,
        0x71C6F8usize,
        0x71C6FCusize,
        0x71C700usize,
        0x4E0758usize,
        0x7558DCusize,
    ]
}

/// The first position in `table` of the key held in `key[start..end]`.
fn find_key(table: &Vec<&'static str>, key: &Vec<char>, start: usize, end: usize) -> (r: Option<usize>)
    requires
        start <= end <= key@.len(),
    ensures
        r == (match first_index_of(key_chars(table@), key@.subrange(start as int, end as int)) {
            Some(i) => Some(i as usize),
            None => None::<usize>,
        }),
        r matches Some(i) ==> i < table@.len(),
{
    let ghost wanted = key@.subrange(start as int, end as int);
    let ghost keys = key_chars(table@);
    let mut i: usize = 0;
    while i < table.len()
        invariant
            i <= table@.len(),
            keys == key_chars(table@),
            wanted == key@.subrange(start as int, end as int),
            start <= end <= key@.len(),
            forall|j: int| 0 <= j < i ==> keys[j] != wanted,
        decreases table@.len() - i,
    {
        if chars_match_str(key, start, end, table[i]) {
            proof {
                assert(is_first_match(keys, wanted, i as int));
                lemma_first_match_unique(keys, wanted, i as int);
            }
            return Some(i);
        }
        i += 1;
    }
    proof {
        if exists|k: int| is_first_match(keys, wanted, k) {
            let k = choose|k: int| is_first_match(keys, wanted, k);
            assert(keys[k] == wanted);
        }
    }
    None
}

impl Default for RalCfgProperties {
    /// Every setting at zero.
    fn default() -> (r: Self)
        ensures
            r@ == Seq::new(PROPERTY_COUNT as nat, |i: int| 0i32),
    {
        let r = RalCfgProperties {
            no_task_switch: 0,
            no_pri_change: 0,
            ignore_mmx: 0,
            ignore_katmai: 0,
            ignore_amd_k3d: 0,
            alt_mem_enable: 0,
            alt_mem_heap_size: 0,
            no_audio: 0,
            no_sound: 0,
            no_cd_audio: 0,
            no_music: 0,
            audio_base_freq: 0,
            ignore_ds3d: 0,
            ignore_dsv: 0,
            ignore_eax: 0,
            ignore_a3d: 0,
            wav_heap_size: 0,
            bundle_heap_size: 0,
            image_heap_size: 0,
            game_gfx_heap_size: 0,
            force_dx5: 0,
            force_no3d_card: 0,
            ignore_primary: 0,
            ignore_secondary: 0,
            agp_mode: 0,
            force3d_trans: 0,
            force3d_alpha: 0,
            force3d_shadow: 0,
            force3d_fogging: 0,
            text_flash_mode: 0,
            video_mode_main: 0,
            video_mode_game: 0,
            v3_driver_fix: 0,
            no_png_decode: 0,
            no_joy: 0,
            joy_mode: 0,
            joy_code: 0,
            joy_lower_dz: 0,
            joy_upper_dz: 0,
            no_force_feedback: 0,
            joy_ff_gain: 0,
            merge_joy: 0,
            no_network: 0,
            inet_port: 0,
            screen_snapshot: 0,
            frame_counter: 0,
            no_replay: 0,
            replay_keys: 0,
            log_file: 0,
            no_fmv: 0,
            key: 0,
            all_secret_cars: 0,
            secret_car: 0,
            use_savegame_keys: 0,
            sensible_saving: 0,
            no_precipitation: 0,
            season_code: 0,
            no_auto_neutral: 0,
            non_linear_steering: 0,
            wr_replay_enable: 0,
            wr_replay_rate: 0,
            alt2_ax_code: 0,
            fiz_patch: 0,
            patch_max_draw_distance: 0,
            patch_sticky_grass: 0,
            patch_gravity: 0,
            patch_damages: 0,
            patch_brake_grip: 0,
            patch_accel_grip: 0,
            patch_slide_grip: 0,
            patch_grip_grass: 0,
            patch_grip_tarmac: 0,
            patch_grip_snow: 0,
            patch_grip_mud: 0,
            patch_grip_gravel: 0,
            lex_control: 0,
            sparks_mode: 0,
        };
        assert(r@ =~= Seq::new(PROPERTY_COUNT as nat, |i: int| 0i32));
        r
    }
}

impl RalCfgProperties {
    /// Settings with every value at zero.
    pub fn new() -> (r: Self)
        ensures
            r@ == Seq::new(PROPERTY_COUNT as nat, |i: int| 0i32),
    {
        Self::default()
    }

    /// Gives the setting at position `index` of the view the value `value`.
    #[verifier::rlimit(50)]
    fn set_field(&mut self, index: usize, value: i32)
        requires
            index < PROPERTY_COUNT,
        ensures
            final(self)@ == old(self)@.update(index as int, value),
    {
        match index {
            0 => self.no_task_switch = value,
            1 => self.no_pri_change = value,
            2 => self.ignore_mmx = value,
            3 => self.ignore_katmai = value,
            4 => self.ignore_amd_k3d = value,
            5 => self.alt_mem_enable = value,
            6 => self.alt_mem_heap_size = value,
            7 => self.no_audio = value,
            8 => self.no_sound = value,
            9 => self.no_cd_audio = value,
            10 => self.no_music = value,
            11 => self.audio_base_freq = value,
            12 => self.ignore_ds3d = value,
            13 => self.ignore_dsv = value,
            14 => self.ignore_eax = value,
            15 => self.ignore_a3d = value,
            16 => self.wav_heap_size = value,
            17 => self.bundle_heap_size = value,
            18 => self.image_heap_size = value,
            19 => self.game_gfx_heap_size = value,
            20 => self.force_dx5 = value,
            21 => self.force_no3d_card = value,
            22 => self.ignore_primary = value,
            23 => self.ignore_secondary = value,
            24 => self.agp_mode = value,
            25 => self.force3d_trans = value,
            26 => self.force3d_alpha = value,
            27 => self.force3d_shadow = value,
            28 => self.force3d_fogging = value,
            29 => self.text_flash_mode = value,
            30 => self.video_mode_main = value,
            31 => self.video_mode_game = value,
            32 => self.v3_driver_fix = value,
            33 => self.no_png_decode = value,
            34 => self.no_joy = value,
            35 => self.joy_mode = value,
            36 => self.joy_code = value,
            37 => self.joy_lower_dz = value,
            38 => self.joy_upper_dz = value,
            39 => self.no_force_feedback = value,
            40 => self.joy_ff_gain = value,
            41 => self.merge_joy = value,
            42 => self.no_network = value,
            43 => self.inet_port = value,
            44 => self.screen_snapshot = value,
            45 => self.frame_counter = value,
            46 => self.no_replay = value,
            47 => self.replay_keys = value,
            48 => self.log_file = value,
            49 => self.no_fmv = value,
            50 => self.key = value,
            51 => self.all_secret_cars = value,
            52 => self.secret_car = value,
            53 => self.use_savegame_keys = value,
            54 => self.sensible_saving = value,
            55 => self.no_precipitation = value,
            56 => self.season_code = value,
            57 => self.no_auto_neutral = value,
            58 => self.non_linear_steering = value,
            59 => self.wr_replay_enable = value,
            60 => self.wr_replay_rate = value,
            61 => self.alt2_ax_code = value,
            62 => self.fiz_patch = value,
            63 => self.patch_max_draw_distance = value,
            64 => self.patch_sticky_grass = value,
            65 => self.patch_gravity = value,
            66 => self.patch_damages = value,
            67 => self.patch_brake_grip = value,
            68 => self.patch_accel_grip = value,
            69 => self.patch_slide_grip = value,
            70 => self.patch_grip_grass = value,
            71 => self.patch_grip_tarmac = value,
            72 => self.patch_grip_snow = value,
            73 => self.patch_grip_mud = value,
            74 => self.patch_grip_gravel = value,
            75 => self.lex_control = value,
            76 => self.sparks_mode = value,
            _ => {},
        }
        assert(self@ =~= old(self)@.update(index as int, value));
    }

    /// Sets the setting named by `key[start..end]`; does nothing where it names none.
    pub fn set_property_chars(&mut self, key: &Vec<char>, start: usize, end: usize, value: i32)
        requires
            start <= end <= key@.len(),
        ensures
            final(self)@ == with_property(old(self)@, key@.subrange(start as int, end as int), value),
    {
        let table = property_key_table();
        match find_key(&table, key, start, end) {
            Some(i) => {
                assert(table@.len() == PROPERTY_COUNT);
                self.set_field(i, value);
            },
            None => {},
        }
    }

    /// Sets the setting that `key` names to `value`. A key that names no
    /// setting leaves every setting as it was.
    pub fn set_property(&mut self, key: &str, value: i32)
        ensures
            final(self)@ == with_property(old(self)@, key@, value),
    {
        let chars = str_chars(key);
        assert(chars@.subrange(0, chars@.len() as int) =~= key@);
        self.set_property_chars(&chars, 0, chars.len(), value);
    }

    /// The address of the game variable that `key[start..end]` names.
    pub fn address_of_chars(key: &Vec<char>, start: usize, end: usize) -> (r: Result<usize, ()>)
        requires
            start <= end <= key@.len(),
        ensures
            r == (match property_address(key@.subrange(start as int, end as int)) {
                Some(a) => Ok::<usize, ()>(a),
                None => Err(()),
            }),
    {
        let keys = address_key_table();
        let addresses = address_table();
        match find_key(&keys, key, start, end) {
            Some(i) => Ok(addresses[i]),
            None => Err(()),
        }
    }

    /// The address of the game variable that `key` names, or `Err(())` where
    /// it names none.
    pub fn get_address(key: &str) -> (r: Result<usize, ()>)
        ensures
            r == (match property_address(key@) {
                Some(a) => Ok::<usize, ()>(a),
                None => Err(()),
            }),
    {
        let chars = str_chars(key);
        assert(chars@.subrange(0, chars@.len() as int) =~= key@);
        Self::address_of_chars(&chars, 0, chars.len())
    }
}

/// What became of one line of the configuration file.
#[derive(Debug, Clone, Copy, PartialEq, Eq, Structural)]
pub enum CfgOutcome {
    /// The trimmed line holds no `=`.
    Malformed,
    /// The text after the first `=` is neither a decimal nor a hexadecimal `i32`.
    InvalidValue,
    /// The text before the first `=` names no game variable.
    UnknownKey,
    /// The game variable at `address` receives `value`, and so does the setting
    /// that the key names, if any.
    Applied { address: usize, value: i32 },
}

/// One line of the configuration file and what became of it.
#[derive(Debug)]
pub struct CfgLine {
    pub line: String,
    pub outcome: CfgOutcome,
}

/// The value of a setting as the file writes it: a decimal `i32`, or else a
/// hexadecimal one, with any leading `"0x"` skipped.
pub open spec fn cfg_value(s: Seq<char>) -> Option<i32> {
    match parse_i32_radix(s, 10) {
        Some(v) => Some(v),
        None => parse_i32_radix(strip_hex_prefixes(s), 16),
    }
}

/// The key of a line: the trimmed text before its first `=`.
pub open spec fn cfg_line_key(line: Seq<char>) -> Seq<char> {
    let t = trim(line);
    match index_of_char(t, '=') {
        Some(e) => t.take(e),
        None => t,
    }
}

/// What becomes of one line of the configuration file.
pub open spec fn cfg_line_outcome(line: Seq<char>) -> CfgOutcome {
    let t = trim(line);
    match index_of_char(t, '=') {
        None => CfgOutcome::Malformed,
        Some(e) => match cfg_value(t.skip(e + 1)) {
            None => CfgOutcome::InvalidValue,
            Some(v) => match property_address(t.take(e)) {
                None => CfgOutcome::UnknownKey,
                Some(a) => CfgOutcome::Applied { address: a, value: v },
            },
        },
    }
}

/// The settings `p` once `line` is read.
pub open spec fn apply_cfg_line(p: Seq<i32>, line: Seq<char>) -> Seq<i32> {
    match cfg_line_outcome(line) {
        CfgOutcome::Applied { address, value } => with_property(p, cfg_line_key(line), value),
        _ => p,
    }
}

/// The settings `p` once every line of `ls` is read, in order.
pub open spec fn apply_cfg_lines(p: Seq<i32>, ls: Seq<Seq<char>>) -> Seq<i32>
    decreases ls.len(),
{
    if ls.len() == 0 {
        p
    } else {
        apply_cfg_line(apply_cfg_lines(p, ls.drop_last()), ls.last())
    }
}

/// The value written in `chars[start..end]`.
fn cfg_value_chars(chars: &Vec<char>, start: usize, end: usize) -> (r: Option<i32>)
    requires
        start <= end <= chars@.len(),
    ensures
        r == cfg_value(chars@.subrange(start as int, end as int)),
{
    match parse_i32_radix_chars(chars, start, end, 10) {
        Some(v) => Some(v),
        None => {
            let k = skip_hex_prefixes(chars, start, end);
            parse_i32_radix_chars(chars, k, end, 16)
        },
    }
}

impl RalCfgProperties {
    /// Reads the line `chars[start..end]`: sets the setting it names and says
    /// what became of it.
    fn read_cfg_line(&mut self, chars: &Vec<char>, start: usize, end: usize) -> (r: CfgOutcome)
        requires
            start <= end <= chars@.len(),
        ensures
            r == cfg_line_outcome(chars@.subrange(start as int, end as int)),
            final(self)@ == apply_cfg_line(old(self)@, chars@.subrange(start as int, end as int)),
    {
        let (a, b) = trim_bounds(chars, start, end);
        let ghost t = chars@.subrange(a as int, b as int);
        match find_char(chars, a, b, '=') {
            None => CfgOutcome::Malformed,
            Some(eq) => {
                assert(t.skip(eq - a + 1) =~= chars@.subrange(eq + 1, b as int));
                assert(t.take(eq - a) =~= chars@.subrange(a as int, eq as int));
                match cfg_value_chars(chars, eq + 1, b) {
                    None => CfgOutcome::InvalidValue,
                    Some(value) => match Self::address_of_chars(chars, a, eq) {
                        Err(()) => CfgOutcome::UnknownKey,
                        Ok(address) => {
                            self.set_property_chars(chars, a, eq, value);
                            CfgOutcome::Applied { address, value }
                        },
                    },
                }
            },
        }
    }
}

/// Reads the text of the configuration file, line by line as `str::lines`
/// splits it. Each line is trimmed and split at its first `=`; the value is
/// read as a decimal `i32`, or else as a hexadecimal one; the key gives the
/// game address that receives the value, and the setting of the same name
/// takes it too. Lines that fail any step are passed over. The result holds
/// each line with what became of it, in order.
pub fn parse_ral_cfg_entries(file_buffer: &str, properties: &mut RalCfgProperties) -> (entries: Vec<
    CfgLine,
>)
    ensures
        entries@.len() == lines(file_buffer@).len(),
        forall|i: int|
            0 <= i < entries@.len() ==> {
                &&& (#[trigger] entries@[i]).line@ == lines(file_buffer@)[i]
                &&& entries@[i].outcome == cfg_line_outcome(lines(file_buffer@)[i])
            },
        final(properties)@ == apply_cfg_lines(old(properties)@, lines(file_buffer@)),
{
    let chars = str_chars(file_buffer);
    let ghost s = chars@;
    let mut entries: Vec<CfgLine> = Vec::new();
    let ghost mut done: Seq<Seq<char>> = Seq::empty();
    let mut pos: usize = 0;
    assert(lines(s) == done + lines_from(s, 0));
    while pos < chars.len()
        invariant
            s == chars@,
            s == file_buffer@,
            pos <= s.len(),
            lines(s) == done + lines_from(s, pos as int),
            entries@.len() == done.len(),
            forall|i: int|
                0 <= i < entries@.len() ==> {
                    &&& (#[trigger] entries@[i]).line@ == done[i]
                    &&& entries@[i].outcome == cfg_line_outcome(done[i])
                },
            properties@ == apply_cfg_lines(old(properties)@, done),
        decreases s.len() - pos,
    {
        let (text_end, next) = next_line(&chars, pos);
        let ghost line = s.subrange(pos as int, text_end as int);
        let outcome = properties.read_cfg_line(&chars, pos, text_end);
        let text = string_from_chars(&chars, pos, text_end);
        entries.push(CfgLine { line: text, outcome });
        proof {
            assert(done.push(line).drop_last() =~= done);
            assert(done + lines_from(s, pos as int) =~= done.push(line) + lines_from(s, next as int));
            done = done.push(line);
        }
        pos = next;
    }
    assert(lines_from(s, pos as int) =~= Seq::<Seq<char>>::empty());
    assert(done =~= lines(s));
    entries
}

/// Reading lines keeps the number of settings.
pub proof fn lemma_apply_cfg_lines_len(p: Seq<i32>, ls: Seq<Seq<char>>)
    requires
        p.len() == PROPERTY_COUNT,
    ensures
        apply_cfg_lines(p, ls).len() == PROPERTY_COUNT,
    decreases ls.len(),
{
    if ls.len() > 0 {
        lemma_apply_cfg_lines_len(p, ls.drop_last());
        let q = apply_cfg_lines(p, ls.drop_last());
        let key = cfg_line_key(ls.last());
        lemma_property_index_bound(key);
    }
}

/// The settings read back what the file wrote. After the lines `ls` and then
/// `line`: where `line` is applied with a value and its key names setting
/// `j`, setting `j` holds that value, whatever it is, 0 included; every
/// setting that the key does not name is as it was before `line`; and a line
/// that is not applied changes no setting.
pub proof fn lemma_applied_line_reads_back(p: Seq<i32>, ls: Seq<Seq<char>>, line: Seq<char>, j: int)
    requires
        p.len() == PROPERTY_COUNT,
        0 <= j < PROPERTY_COUNT,
    ensures
        apply_cfg_lines(p, ls.push(line)).len() == PROPERTY_COUNT,
        cfg_line_outcome(line) is Applied && property_index(cfg_line_key(line)) == Some(j)
            ==> apply_cfg_lines(p, ls.push(line))[j] == cfg_line_outcome(line)->value,
        property_index(cfg_line_key(line)) != Some(j) ==> apply_cfg_lines(p, ls.push(line))[j]
            == apply_cfg_lines(p, ls)[j],
        !(cfg_line_outcome(line) is Applied) ==> apply_cfg_lines(p, ls.push(line))
            == apply_cfg_lines(p, ls),
{
    assert(ls.push(line).drop_last() =~= ls);
    assert(ls.push(line).last() == line);
    lemma_apply_cfg_lines_len(p, ls);
    lemma_apply_cfg_lines_len(p, ls.push(line));
    let before = apply_cfg_lines(p, ls);
    let key = cfg_line_key(line);
    if cfg_line_outcome(line) is Applied {
        let value = cfg_line_outcome(line)->value;
        assert(apply_cfg_lines(p, ls.push(line)) == with_property(before, key, value));
        if property_index(key) is Some {
            lemma_set_property_reads_back(before, key, value, j);
        } else {
            lemma_set_unknown_property(before, key, value);
        }
    }
}

/// Both tables of keys spell every setting alike, save the one for the AMD
/// 3DNow! setting, which `set_property` spells `"ignoreamd3d"` and
/// `get_address` spells `"ignoreamdk3d"`: for every other key, the key names a
/// setting exactly when it names a game address, and at the same position, so
/// that the setting and the game variable it is copied to belong together.
pub proof fn lemma_keys_agree(key: Seq<char>)
    requires
        key != "ignoreamd3d"@,
        key != "ignoreamdk3d"@,
    ensures
        property_index(key) == first_index_of(key_chars(address_key_names()), key),
        property_index(key) is Some <==> property_address(key) is Some,
{
    reveal(property_key_names);
    reveal(address_key_names);
    let p = key_chars(property_key_names());
    let a = key_chars(address_key_names());
    assert(address_key_names() =~= property_key_names().update(4, "ignoreamdk3d"));
    assert(p[4] == "ignoreamd3d"@);
    assert(a[4] == "ignoreamdk3d"@);
    assert(p.len() == a.len());
    assert forall|j: int| 0 <= j < p.len() && j != 4 implies #[trigger] p[j] == a[j] by {
        assert(address_key_names()[j] == property_key_names()[j]);
    }
    if exists|i: int| is_first_match(p, key, i) {
        let i = choose|i: int| is_first_match(p, key, i);
        assert(is_first_match(p, key, i));
        assert(i != 4);
        assert(a[i] == p[i]);
        assert forall|j: int| 0 <= j < i implies a[j] != key by {
            if j != 4 {
                assert(p[j] == a[j]);
                assert(p[j] != key);
            }
        }
        assert(is_first_match(a, key, i));
        lemma_first_match_unique(p, key, i);
        lemma_first_match_unique(a, key, i);
    } else if exists|i: int| is_first_match(a, key, i) {
        let i = choose|i: int| is_first_match(a, key, i);
        assert(is_first_match(a, key, i));
        assert(i != 4);
        assert(a[i] == p[i]);
        assert forall|j: int| 0 <= j < i implies p[j] != key by {
            if j != 4 {
                assert(p[j] == a[j]);
                assert(a[j] != key);
            }
        }
        assert(is_first_match(p, key, i));
    }
}

/// After `set_property(key, value)`, the setting that `key` names holds
/// `value`, and every other setting is as it was.
pub proof fn lemma_set_property_reads_back(p: Seq<i32>, key: Seq<char>, value: i32, j: int)
    requires
        p.len() == PROPERTY_COUNT,
        property_index(key) is Some,
        0 <= j < PROPERTY_COUNT,
    ensures
        with_property(p, key, value).len() == PROPERTY_COUNT,
        j == property_index(key).unwrap() ==> with_property(p, key, value)[j] == value,
        j != property_index(key).unwrap() ==> with_property(p, key, value)[j] == p[j],
{
    let i = choose|i: int| is_first_match(key_chars(property_key_names()), key, i);
    assert(is_first_match(key_chars(property_key_names()), key, i));
    assert(property_key_names().len() == PROPERTY_COUNT) by {
        reveal(property_key_names);
    }
}

/// A setting's position lies within the settings.
pub proof fn lemma_property_index_bound(key: Seq<char>)
    ensures
        property_index(key) matches Some(i) ==> 0 <= i < PROPERTY_COUNT,
{
    if property_index(key) is Some {
        let i = choose|i: int| is_first_match(key_chars(property_key_names()), key, i);
        assert(is_first_match(key_chars(property_key_names()), key, i));
        assert(property_key_names().len() == PROPERTY_COUNT) by {
            reveal(property_key_names);
        }
    }
}

/// A key that names no setting changes nothing.
pub proof fn lemma_set_unknown_property(p: Seq<i32>, key: Seq<char>, value: i32)
    requires
        property_index(key) is None,
    ensures
        with_property(p, key, value) == p,
{
}

/// Setting the same key twice keeps the second value only.
pub proof fn lemma_set_property_last_wins(p: Seq<i32>, key: Seq<char>, v1: i32, v2: i32)
    requires
        p.len() == PROPERTY_COUNT,
    ensures
        with_property(with_property(p, key, v1), key, v2) == with_property(p, key, v2),
{
    lemma_property_index_bound(key);
    if let Some(i) = property_index(key) {
        assert(p.update(i, v1).update(i, v2) =~= p.update(i, v2));
    }
}

/// Setting a key twice to one value is setting it once.
pub proof fn lemma_set_property_idempotent(p: Seq<i32>, key: Seq<char>, value: i32)
    requires
        p.len() == PROPERTY_COUNT,
    ensures
        with_property(with_property(p, key, value), key, value) == with_property(p, key, value),
{
    lemma_set_property_last_wins(p, key, value, value);
}

/// Keys that name different settings can be set in either order.
pub proof fn lemma_set_property_commutes(
    p: Seq<i32>,
    k1: Seq<char>,
    v1: i32,
    k2: Seq<char>,
    v2: i32,
)
    requires
        p.len() == PROPERTY_COUNT,
        property_index(k1) != property_index(k2) || (property_index(k1) is None),
    ensures
        with_property(with_property(p, k1, v1), k2, v2) == with_property(
            with_property(p, k2, v2),
            k1,
            v1,
        ),
{
    lemma_property_index_bound(k1);
    lemma_property_index_bound(k2);
    if let (Some(i), Some(j)) = (property_index(k1), property_index(k2)) {
        assert(p.update(i, v1).update(j, v2) =~= p.update(j, v2).update(i, v1));
    }
}

/// The first position of the address `a` in `property_addresses()`, or the
/// table's length where it does not occur there.
pub open spec fn address_slot(a: usize) -> int {
    if a == 0x518384usize {
        0
    } else if a == 0x518388usize {
        1
    } else if a == 0x5183ACusize {
        2
    } else if a == 0x5183B4usize {
        3
    } else if a == 0x5183BCusize {
        4
    } else if a == 0x4E0584usize {
        5
    } else if a == 0x4E0588usize {
        6
    } else if a == 0x4F82B4usize {
        7
    } else if a == 0x518104usize {
        9
    } else if a == 0x5069BCusize {
        10
    } else if a == 0x4F82D4usize {
        11
    } else if a == 0x506B42usize {
        12
    } else if a == 0x506C50usize {
        13
    } else if a == 0x506C6Cusize {
        14
    } else if a == 0x506C5Cusize {
        15
    } else if a == 0x5068ECusize {
        16
    } else if a == 0x51B980usize {
        17
    } else if a == 0x519554usize {
        18
    } else if a == 0x5BE894usize {
        19
    } else if a == 0x5AB958usize {
        20
    } else if a == 0x5AB94Cusize {
        21
    } else if a == 0x5AB950usize {
        22
    } else if a == 0x5AB954usize {
        23
    } else if a == 0x5AB95Cusize {
        24
    } else if a == 0x5AB97Cusize {
        25
    } else if a == 0x5AB984usize {
        26
    } else if a == 0x5AB980usize {
        27
    } else if a == 0x5AB988usize {
        28
    } else if a == 0x4F3F74usize {
        29
    } else if a == 0x4F4944usize {
        30
    } else if a == 0x4F4948usize {
        31
    } else if a == 0x624238usize {
        32
    } else if a == 0x51B97Cusize {
        33
    } else if a == 0x4F68DCusize {
        34
    } else if a == 0x4F68E0usize {
        35
    } else if a == 0x4F68E4usize {
        36
    } else if a == 0x4F68E8usize {
        37
    } else if a == 0x4F68ECusize {
        38
    } else if a == 0x4F68F4usize {
        39
    } else if a == 0x4F68F8usize {
        40
    } else if a == 0x4F68FCusize {
        41
    } else if a == 0x52A4B0usize {
        42
    } else if a == 0x52AC24usize {
        43
    } else if a == 0x4F52B4usize {
        44
    } else if a == 0x5EB100usize {
        45
    } else if a == 0x5BEC7Cusize {
        46
    } else if a == 0x5BECA8usize {
        47
    } else if a == 0x4E0098usize {
        48
    } else if a == 0x5BE870usize {
        49
    } else if a == 0x4E052Cusize {
        50
    } else if a == 0x758710usize {
        51
    } else if a == 0x755144usize {
        53
    } else if a == 0x75AAD8usize {
        54
    } else if a == 0x71C800usize {
        55
    } else if a == 0x5BECACusize {
        56
    } else if a == 0x61416Cusize {
        57
    } else if a == 0x4F6900usize {
        58
    } else if a == 0x5C2CEBusize {
        59
    } else if a == 0x5C2CEFusize {
        60
    } else if a == 0x4F68F0usize {
        61
    } else if a == 0x71C6D0usize {
        62
    } else if a == 0x71C6D4usize {
        63
    } else if a == 0x71C6D8usize {
        64
    } else if a == 0x71C6DCusize {
        65
    } else if a == 0x71C6E0usize {
        66
    } else if a == 0x71C6E4usize {
        67
    } else if a == 0x71C6E8usize {
        68
    } else if a == 0x71C6ECusize {
        69
    } else if a == 0x71C6F0usize {
        70
    } else if a == 0x71C6F4usize {
        71
    } else if a == 0x71C6F8usize {
        72
    } else if a == 0x71C6FCusize {
        73
    } else if a == 0x71C700usize {
        74
    } else if a == 0x4E0758usize {
        75
    } else if a == 0x7558DCusize {
        76
    } else {
        77
    }
}

/// Each entry of the address table sits at its own first position, save the
/// second entry of each of the two shared addresses.
proof fn lemma_address_slot(i: int)
    requires
        0 <= i < 77,
    ensures
        address_slot(property_addresses()[i]) == (if i == 8 {
            7
        } else if i == 52 {
            51
        } else {
            i
        }),
{
    reveal(property_addresses);
    if i == 0 {
        assert(property_addresses()[0] == 0x518384usize);
    } else if i == 1 {
        assert(property_addresses()[1] == 0x518388usize);
    } else if i == 2 {
        assert(property_addresses()[2] == 0x5183ACusize);
    } else if i == 3 {
        assert(property_addresses()[3] == 0x5183B4usize);
    } else if i == 4 {
        assert(property_addresses()[4] == 0x5183BCusize);
    } else if i == 5 {
        assert(property_addresses()[5] == 0x4E0584usize);
    } else if i == 6 {
        assert(property_addresses()[6] == 0x4E0588usize);
    } else if i == 7 {
        assert(property_addresses()[7] == 0x4F82B4usize);
    } else if i == 8 {
        assert(property_addresses()[8] == 0x4F82B4usize);
    } else if i == 9 {
        assert(property_addresses()[9] == 0x518104usize);
    } else if i == 10 {
        assert(property_addresses()[10] == 0x5069BCusize);
    } else if i == 11 {
        assert(property_addresses()[11] == 0x4F82D4usize);
    } else if i == 12 {
        assert(property_addresses()[12] == 0x506B42usize);
    } else if i == 13 {
        assert(property_addresses()[13] == 0x506C50usize);
    } else if i == 14 {
        assert(property_addresses()[14] == 0x506C6Cusize);
    } else if i == 15 {
        assert(property_addresses()[15] == 0x506C5Cusize);
    } else if i == 16 {
        assert(property_addresses()[16] == 0x5068ECusize);
    } else if i == 17 {
        assert(property_addresses()[17] == 0x51B980usize);
    } else if i == 18 {
        assert(property_addresses()[18] == 0x519554usize);
    } else if i == 19 {
        assert(property_addresses()[19] == 0x5BE894usize);
    } else if i == 20 {
        assert(property_addresses()[20] == 0x5AB958usize);
    } else if i == 21 {
        assert(property_addresses()[21] == 0x5AB94Cusize);
    } else if i == 22 {
        assert(property_addresses()[22] == 0x5AB950usize);
    } else if i == 23 {
        assert(property_addresses()[23] == 0x5AB954usize);
    } else if i == 24 {
        assert(property_addresses()[24] == 0x5AB95Cusize);
    } else if i == 25 {
        assert(property_addresses()[25] == 0x5AB97Cusize);
    } else if i == 26 {
        assert(property_addresses()[26] == 0x5AB984usize);
    } else if i == 27 {
        assert(property_addresses()[27] == 0x5AB980usize);
    } else if i == 28 {
        assert(property_addresses()[28] == 0x5AB988usize);
    } else if i == 29 {
        assert(property_addresses()[29] == 0x4F3F74usize);
    } else if i == 30 {
        assert(property_addresses()[30] == 0x4F4944usize);
    } else if i == 31 {
        assert(property_addresses()[31] == 0x4F4948usize);
    } else if i == 32 {
        assert(property_addresses()[32] == 0x624238usize);
    } else if i == 33 {
        assert(property_addresses()[33] == 0x51B97Cusize);
    } else if i == 34 {
        assert(property_addresses()[34] == 0x4F68DCusize);
    } else if i == 35 {
        assert(property_addresses()[35] == 0x4F68E0usize);
    } else if i == 36 {
        assert(property_addresses()[36] == 0x4F68E4usize);
    } else if i == 37 {
        assert(property_addresses()[37] == 0x4F68E8usize);
    } else if i == 38 {
        assert(property_addresses()[38] == 0x4F68ECusize);
    } else if i == 39 {
        assert(property_addresses()[39] == 0x4F68F4usize);
    } else if i == 40 {
        assert(property_addresses()[40] == 0x4F68F8usize);
    } else if i == 41 {
        assert(property_addresses()[41] == 0x4F68FCusize);
    } else if i == 42 {
        assert(property_addresses()[42] == 0x52A4B0usize);
    } else if i == 43 {
        assert(property_addresses()[43] == 0x52AC24usize);
    } else if i == 44 {
        assert(property_addresses()[44] == 0x4F52B4usize);
    } else if i == 45 {
        assert(property_addresses()[45] == 0x5EB100usize);
    } else if i == 46 {
        assert(property_addresses()[46] == 0x5BEC7Cusize);
    } else if i == 47 {
        assert(property_addresses()[47] == 0x5BECA8usize);
    } else if i == 48 {
        assert(property_addresses()[48] == 0x4E0098usize);
    } else if i == 49 {
        assert(property_addresses()[49] == 0x5BE870usize);
    } else if i == 50 {
        assert(property_addresses()[50] == 0x4E052Cusize);
    } else if i == 51 {
        assert(property_addresses()[51] == 0x758710usize);
    } else if i == 52 {
        assert(property_addresses()[52] == 0x758710usize);
    } else if i == 53 {
        assert(property_addresses()[53] == 0x755144usize);
    } else if i == 54 {
        assert(property_addresses()[54] == 0x75AAD8usize);
    } else if i == 55 {
        assert(property_addresses()[55] == 0x71C800usize);
    } else if i == 56 {
        assert(property_addresses()[56] == 0x5BECACusize);
    } else if i == 57 {
        assert(property_addresses()[57] == 0x61416Cusize);
    } else if i == 58 {
        assert(property_addresses()[58] == 0x4F6900usize);
    } else if i == 59 {
        assert(property_addresses()[59] == 0x5C2CEBusize);
    } else if i == 60 {
        assert(property_addresses()[60] == 0x5C2CEFusize);
    } else if i == 61 {
        assert(property_addresses()[61] == 0x4F68F0usize);
    } else if i == 62 {
        assert(property_addresses()[62] == 0x71C6D0usize);
    } else if i == 63 {
        assert(property_addresses()[63] == 0x71C6D4usize);
    } else if i == 64 {
        assert(property_addresses()[64] == 0x71C6D8usize);
    } else if i == 65 {
        assert(property_addresses()[65] == 0x71C6DCusize);
    } else if i == 66 {
        assert(property_addresses()[66] == 0x71C6E0usize);
    } else if i == 67 {
        assert(property_addresses()[67] == 0x71C6E4usize);
    } else if i == 68 {
        assert(property_addresses()[68] == 0x71C6E8usize);
    } else if i == 69 {
        assert(property_addresses()[69] == 0x71C6ECusize);
    } else if i == 70 {
        assert(property_addresses()[70] == 0x71C6F0usize);
    } else if i == 71 {
        assert(property_addresses()[71] == 0x71C6F4usize);
    } else if i == 72 {
        assert(property_addresses()[72] == 0x71C6F8usize);
    } else if i == 73 {
        assert(property_addresses()[73] == 0x71C6FCusize);
    } else if i == 74 {
        assert(property_addresses()[74] == 0x71C700usize);
    } else if i == 75 {
        assert(property_addresses()[75] == 0x4E0758usize);
    } else if i == 76 {
        assert(property_addresses()[76] == 0x7558DCusize);
    }
}

/// No address key before the first spelling of a shared address is one of
/// the spellings of the shared addresses.
proof fn lemma_alias_keys_come_first(m: int)
    requires
        0 <= m < 52,
    ensures
        key_chars(address_key_names())[m] == address_key_names()[m]@,
        m < 7 ==> address_key_names()[m]@ != "noaudio"@,
        m < 8 ==> address_key_names()[m]@ != "nosound"@,
        m < 51 ==> address_key_names()[m]@ != "allsecretcars"@,
        address_key_names()[m]@ != "secretcar"@,
{
    reveal(address_key_names);
    reveal_strlit("noaudio");
    reveal_strlit("nosound");
    reveal_strlit("allsecretcars");
    reveal_strlit("secretcar");
    if m == 0 {
        reveal_strlit("notaskswitch");
        assert(address_key_names()[0] == "notaskswitch");
        assert("notaskswitch"@.len() != "noaudio"@.len());
        assert("notaskswitch"@.len() != "nosound"@.len());
        assert("notaskswitch"@.len() != "allsecretcars"@.len());
        assert("notaskswitch"@.len() != "secretcar"@.len());
    } else if m == 1 {
        reveal_strlit("noprichange");
        assert(address_key_names()[1] == "noprichange");
        assert("noprichange"@.len() != "noaudio"@.len());
        assert("noprichange"@.len() != "nosound"@.len());
        assert("noprichange"@.len() != "allsecretcars"@.len());
        assert("noprichange"@.len() != "secretcar"@.len());
    } else if m == 2 {
        reveal_strlit("ignoremmx");
        assert(address_key_names()[2] == "ignoremmx");
        assert("ignoremmx"@.len() != "noaudio"@.len());
        assert("ignoremmx"@.len() != "nosound"@.len());
        assert("ignoremmx"@.len() != "allsecretcars"@.len());
        assert("ignoremmx"@[0] != "secretcar"@[0]);
    } else if m == 3 {
        reveal_strlit("ignorekatmai");
        assert(address_key_names()[3] == "ignorekatmai");
        assert("ignorekatmai"@.len() != "noaudio"@.len());
        assert("ignorekatmai"@.len() != "nosound"@.len());
        assert("ignorekatmai"@.len() != "allsecretcars"@.len());
        assert("ignorekatmai"@.len() != "secretcar"@.len());
    } else if m == 4 {
        reveal_strlit("ignoreamdk3d");
        assert(address_key_names()[4] == "ignoreamdk3d");
        assert("ignoreamdk3d"@.len() != "noaudio"@.len());
        assert("ignoreamdk3d"@.len() != "nosound"@.len());
        assert("ignoreamdk3d"@.len() != "allsecretcars"@.len());
        assert("ignoreamdk3d"@.len() != "secretcar"@.len());
    } else if m == 5 {
        reveal_strlit("altmemenable");
        assert(address_key_names()[5] == "altmemenable");
        assert("altmemenable"@.len() != "noaudio"@.len());
        assert("altmemenable"@.len() != "nosound"@.len());
        assert("altmemenable"@.len() != "allsecretcars"@.len());
        assert("altmemenable"@.len() != "secretcar"@.len());
    } else if m == 6 {
        reveal_strlit("altmemheapsize");
        assert(address_key_names()[6] == "altmemheapsize");
        assert("altmemheapsize"@.len() != "noaudio"@.len());
        assert("altmemheapsize"@.len() != "nosound"@.len());
        assert("altmemheapsize"@.len() != "allsecretcars"@.len());
        assert("altmemheapsize"@.len() != "secretcar"@.len());
    } else if m == 7 {
        reveal_strlit("noaudio");
        assert(address_key_names()[7] == "noaudio");
        assert("noaudio"@[2] != "nosound"@[2]);
        assert("noaudio"@.len() != "allsecretcars"@.len());
        assert("noaudio"@.len() != "secretcar"@.len());
    } else if m == 8 {
        reveal_strlit("nosound");
        assert(address_key_names()[8] == "nosound");
        assert("nosound"@.len() != "allsecretcars"@.len());
        assert("nosound"@.len() != "secretcar"@.len());
    } else if m == 9 {
        reveal_strlit("nocdaudio");
        assert(address_key_names()[9] == "nocdaudio");
        assert("nocdaudio"@.len() != "allsecretcars"@.len());
        assert("nocdaudio"@[0] != "secretcar"@[0]);
    } else if m == 10 {
        reveal_strlit("nomusic");
        assert(address_key_names()[10] == "nomusic");
        assert("nomusic"@.len() != "allsecretcars"@.len());
        assert("nomusic"@.len() != "secretcar"@.len());
    } else if m == 11 {
        reveal_strlit("audiobasefreq");
        assert(address_key_names()[11] == "audiobasefreq");
        assert("audiobasefreq"@[1] != "allsecretcars"@[1]);
        assert("audiobasefreq"@.len() != "secretcar"@.len());
    } else if m == 12 {
        reveal_strlit("ignoreds3d");
        assert(address_key_names()[12] == "ignoreds3d");
        assert("ignoreds3d"@.len() != "allsecretcars"@.len());
        assert("ignoreds3d"@.len() != "secretcar"@.len());
    } else if m == 13 {
        reveal_strlit("ignoredsv");
        assert(address_key_names()[13] == "ignoredsv");
        assert("ignoredsv"@.len() != "allsecretcars"@.len());
        assert("ignoredsv"@[0] != "secretcar"@[0]);
    } else if m == 14 {
        reveal_strlit("ignoreeax");
        assert(address_key_names()[14] == "ignoreeax");
        assert("ignoreeax"@.len() != "allsecretcars"@.len());
        assert("ignoreeax"@[0] != "secretcar"@[0]);
    } else if m == 15 {
        reveal_strlit("ignorea3d");
        assert(address_key_names()[15] == "ignorea3d");
        assert("ignorea3d"@.len() != "allsecretcars"@.len());
        assert("ignorea3d"@[0] != "secretcar"@[0]);
    } else if m == 16 {
        reveal_strlit("wavheapsize");
        assert(address_key_names()[16] == "wavheapsize");
        assert("wavheapsize"@.len() != "allsecretcars"@.len());
        assert("wavheapsize"@.len() != "secretcar"@.len());
    } else if m == 17 {
        reveal_strlit("bundleheapsize");
        assert(address_key_names()[17] == "bundleheapsize");
        assert("bundleheapsize"@.len() != "allsecretcars"@.len());
        assert("bundleheapsize"@.len() != "secretcar"@.len());
    } else if m == 18 {
        reveal_strlit("imageheapsize");
        assert(address_key_names()[18] == "imageheapsize");
        assert("imageheapsize"@[0] != "allsecretcars"@[0]);
        assert("imageheapsize"@.len() != "secretcar"@.len());
    } else if m == 19 {
        reveal_strlit("gamegfxheapsize");
        assert(address_key_names()[19] == "gamegfxheapsize");
        assert("gamegfxheapsize"@.len() != "allsecretcars"@.len());
        assert("gamegfxheapsize"@.len() != "secretcar"@.len());
    } else if m == 20 {
        reveal_strlit("forcedx5");
        assert(address_key_names()[20] == "forcedx5");
        assert("forcedx5"@.len() != "allsecretcars"@.len());
        assert("forcedx5"@.len() != "secretcar"@.len());
    } else if m == 21 {
        reveal_strlit("forceno3dcard");
        assert(address_key_names()[21] == "forceno3dcard");
        assert("forceno3dcard"@[0] != "allsecretcars"@[0]);
        assert("forceno3dcard"@.len() != "secretcar"@.len());
    } else if m == 22 {
        reveal_strlit("ignoreprimary");
        assert(address_key_names()[22] == "ignoreprimary");
        assert("ignoreprimary"@[0] != "allsecretcars"@[0]);
        assert("ignoreprimary"@.len() != "secretcar"@.len());
    } else if m == 23 {
        reveal_strlit("ignoresecondary");
        assert(address_key_names()[23] == "ignoresecondary");
        assert("ignoresecondary"@.len() != "allsecretcars"@.len());
        assert("ignoresecondary"@.len() != "secretcar"@.len());
    } else if m == 24 {
        reveal_strlit("agpmode");
        assert(address_key_names()[24] == "agpmode");
        assert("agpmode"@.len() != "allsecretcars"@.len());
        assert("agpmode"@.len() != "secretcar"@.len());
    } else if m == 25 {
        reveal_strlit("force3dtrans");
        assert(address_key_names()[25] == "force3dtrans");
        assert("force3dtrans"@.len() != "allsecretcars"@.len());
        assert("force3dtrans"@.len() != "secretcar"@.len());
    } else if m == 26 {
        reveal_strlit("force3dalpha");
        assert(address_key_names()[26] == "force3dalpha");
        assert("force3dalpha"@.len() != "allsecretcars"@.len());
        assert("force3dalpha"@.len() != "secretcar"@.len());
    } else if m == 27 {
        reveal_strlit("force3dshadow");
        assert(address_key_names()[27] == "force3dshadow");
        assert("force3dshadow"@[0] != "allsecretcars"@[0]);
        assert("force3dshadow"@.len() != "secretcar"@.len());
    } else if m == 28 {
        reveal_strlit("force3dfogging");
        assert(address_key_names()[28] == "force3dfogging");
        assert("force3dfogging"@.len() != "allsecretcars"@.len());
        assert("force3dfogging"@.len() != "secretcar"@.len());
    } else if m == 29 {
        reveal_strlit("textflashmode");
        assert(address_key_names()[29] == "textflashmode");
        assert("textflashmode"@[0] != "allsecretcars"@[0]);
        assert("textflashmode"@.len() != "secretcar"@.len());
    } else if m == 30 {
        reveal_strlit("videomodemain");
        assert(address_key_names()[30] == "videomodemain");
        assert("videomodemain"@[0] != "allsecretcars"@[0]);
        assert("videomodemain"@.len() != "secretcar"@.len());
    } else if m == 31 {
        reveal_strlit("videomodegame");
        assert(address_key_names()[31] == "videomodegame");
        assert("videomodegame"@[0] != "allsecretcars"@[0]);
        assert("videomodegame"@.len() != "secretcar"@.len());
    } else if m == 32 {
        reveal_strlit("v3driverfix");
        assert(address_key_names()[32] == "v3driverfix");
        assert("v3driverfix"@.len() != "allsecretcars"@.len());
        assert("v3driverfix"@.len() != "secretcar"@.len());
    } else if m == 33 {
        reveal_strlit("nopngdecode");
        assert(address_key_names()[33] == "nopngdecode");
        assert("nopngdecode"@.len() != "allsecretcars"@.len());
        assert("nopngdecode"@.len() != "secretcar"@.len());
    } else if m == 34 {
        reveal_strlit("nojoy");
        assert(address_key_names()[34] == "nojoy");
        assert("nojoy"@.len() != "allsecretcars"@.len());
        assert("nojoy"@.len() != "secretcar"@.len());
    } else if m == 35 {
        reveal_strlit("joymode");
        assert(address_key_names()[35] == "joymode");
        assert("joymode"@.len() != "allsecretcars"@.len());
        assert("joymode"@.len() != "secretcar"@.len());
    } else if m == 36 {
        reveal_strlit("joycode");
        assert(address_key_names()[36] == "joycode");
        assert("joycode"@.len() != "allsecretcars"@.len());
        assert("joycode"@.len() != "secretcar"@.len());
    } else if m == 37 {
        reveal_strlit("joylowerdz");
        assert(address_key_names()[37] == "joylowerdz");
        assert("joylowerdz"@.len() != "allsecretcars"@.len());
        assert("joylowerdz"@.len() != "secretcar"@.len());
    } else if m == 38 {
        reveal_strlit("joyupperdz");
        assert(address_key_names()[38] == "joyupperdz");
        assert("joyupperdz"@.len() != "allsecretcars"@.len());
        assert("joyupperdz"@.len() != "secretcar"@.len());
    } else if m == 39 {
        reveal_strlit("noforcefeedback");
        assert(address_key_names()[39] == "noforcefeedback");
        assert("noforcefeedback"@.len() != "allsecretcars"@.len());
        assert("noforcefeedback"@.len() != "secretcar"@.len());
    } else if m == 40 {
        reveal_strlit("joyffgain");
        assert(address_key_names()[40] == "joyffgain");
        assert("joyffgain"@.len() != "allsecretcars"@.len());
        assert("joyffgain"@[0] != "secretcar"@[0]);
    } else if m == 41 {
        reveal_strlit("mergejoy");
        assert(address_key_names()[41] == "mergejoy");
        assert("mergejoy"@.len() != "allsecretcars"@.len());
        assert("mergejoy"@.len() != "secretcar"@.len());
    } else if m == 42 {
        reveal_strlit("nonetwork");
        assert(address_key_names()[42] == "nonetwork");
        assert("nonetwork"@.len() != "allsecretcars"@.len());
        assert("nonetwork"@[0] != "secretcar"@[0]);
    } else if m == 43 {
        reveal_strlit("inetport");
        assert(address_key_names()[43] == "inetport");
        assert("inetport"@.len() != "allsecretcars"@.len());
        assert("inetport"@.len() != "secretcar"@.len());
    } else if m == 44 {
        reveal_strlit("screensnapshot");
        assert(address_key_names()[44] == "screensnapshot");
        assert("screensnapshot"@.len() != "allsecretcars"@.len());
        assert("screensnapshot"@.len() != "secretcar"@.len());
    } else if m == 45 {
        reveal_strlit("framecounter");
        assert(address_key_names()[45] == "framecounter");
        assert("framecounter"@.len() != "allsecretcars"@.len());
        assert("framecounter"@.len() != "secretcar"@.len());
    } else if m == 46 {
        reveal_strlit("noreplay");
        assert(address_key_names()[46] == "noreplay");
        assert("noreplay"@.len() != "allsecretcars"@.len());
        assert("noreplay"@.len() != "secretcar"@.len());
    } else if m == 47 {
        reveal_strlit("replaykeys");
        assert(address_key_names()[47] == "replaykeys");
        assert("replaykeys"@.len() != "allsecretcars"@.len());
        assert("replaykeys"@.len() != "secretcar"@.len());
    } else if m == 48 {
        reveal_strlit("logfile");
        assert(address_key_names()[48] == "logfile");
        assert("logfile"@.len() != "allsecretcars"@.len());
        assert("logfile"@.len() != "secretcar"@.len());
    } else if m == 49 {
        reveal_strlit("nofmv");
        assert(address_key_names()[49] == "nofmv");
        assert("nofmv"@.len() != "allsecretcars"@.len());
        assert("nofmv"@.len() != "secretcar"@.len());
    } else if m == 50 {
        reveal_strlit("key");
        assert(address_key_names()[50] == "key");
        assert("key"@.len() != "allsecretcars"@.len());
        assert("key"@.len() != "secretcar"@.len());
    } else if m == 51 {
        reveal_strlit("allsecretcars");
        assert(address_key_names()[51] == "allsecretcars");
        assert("allsecretcars"@.len() != "secretcar"@.len());
    }
}
/// Where `key` names a game address, its first position among the address
/// keys.
proof fn lemma_address_key_position(key: Seq<char>) -> (i: int)
    requires
        property_address(key) is Some,
    ensures
        is_first_match(key_chars(address_key_names()), key, i),
        property_address(key) == Some(property_addresses()[i]),
{
    let a = key_chars(address_key_names());
    let i = choose|i: int| is_first_match(a, key, i);
    assert(is_first_match(a, key, i));
    lemma_first_match_unique(a, key, i);
    i
}

/// Two different keys that both name a game variable name the same one
/// exactly when they are the two spellings of the sound switch (`"noaudio"`
/// and `"nosound"`) or of the secret-car switch (`"allsecretcars"` and
/// `"secretcar"`): every other key has an address of its own.
pub proof fn lemma_shared_addresses(k1: Seq<char>, k2: Seq<char>)
    requires
        k1 != k2,
        property_address(k1) is Some,
        property_address(k2) is Some,
    ensures
        property_address(k1) == property_address(k2) <==> {
            ||| (k1 == "noaudio"@ && k2 == "nosound"@)
            ||| (k1 == "nosound"@ && k2 == "noaudio"@)
            ||| (k1 == "allsecretcars"@ && k2 == "secretcar"@)
            ||| (k1 == "secretcar"@ && k2 == "allsecretcars"@)
        },
{
    let a = key_chars(address_key_names());
    let i = lemma_address_key_position(k1);
    let j = lemma_address_key_position(k2);
    assert(a.len() == 77) by {
        reveal(address_key_names);
    }
    lemma_address_slot(i);
    lemma_address_slot(j);
    assert(a[7] == "noaudio"@ && a[8] == "nosound"@ && a[51] == "allsecretcars"@ && a[52]
        == "secretcar"@) by {
        reveal(address_key_names);
    }
    assert(property_addresses()[7] == property_addresses()[8] && property_addresses()[51]
        == property_addresses()[52]) by {
        reveal(property_addresses);
    }
    if k1 == "noaudio"@ || k1 == "nosound"@ || k1 == "allsecretcars"@ || k1 == "secretcar"@ {
        lemma_alias_key_position(k1, i);
    }
    if k2 == "noaudio"@ || k2 == "nosound"@ || k2 == "allsecretcars"@ || k2 == "secretcar"@ {
        lemma_alias_key_position(k2, j);
    }
}

/// The first positions of the spellings of the shared addresses.
proof fn lemma_alias_key_position(key: Seq<char>, i: int)
    requires
        is_first_match(key_chars(address_key_names()), key, i),
        key == "noaudio"@ || key == "nosound"@ || key == "allsecretcars"@ || key == "secretcar"@,
    ensures
        key == "noaudio"@ ==> i == 7,
        key == "nosound"@ ==> i == 8,
        key == "allsecretcars"@ ==> i == 51,
        key == "secretcar"@ ==> i == 52,
{
    let a = key_chars(address_key_names());
    assert(a[7] == "noaudio"@ && a[8] == "nosound"@ && a[51] == "allsecretcars"@ && a[52]
        == "secretcar"@) by {
        reveal(address_key_names);
    }
    if i < 52 {
        lemma_alias_keys_come_first(i);
    }
}

} // verus!
