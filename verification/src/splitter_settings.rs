use vstd::prelude::*;

verus! {

/// What the runner chose to split on, and whether the completion value is
/// shown. Each field is one checkbox of the settings page.
#[derive(Clone, Copy, Debug, PartialEq, Eq, Structural)]
pub struct Settings {
    pub fire_keep_fire_shrine: bool,
    pub arcane_tunnels_fire_shrine: bool,
    pub stoneheart_city_fire_shrine: bool,
    pub abandoned_path_fire_shrine: bool,
    pub temple_gardens_fire_shrine: bool,
    pub firefall_river_fire_shrine: bool,
    pub steam_house_fire_shrine: bool,
    pub ap_soul_fragments_end: bool,
    pub tg_soul_fragments_end: bool,
    pub ffr_soul_fragments_end: bool,
    pub fk_soul_fragments_end: bool,
    pub gruh_dead: bool,
    pub croh_dead: bool,
    pub sirion_dead: bool,
    pub beira_dead: bool,
    pub samael_dead: bool,
    pub queen_dead: bool,
    pub shield: bool,
    pub fireball: bool,
    pub spin: bool,
    pub wall_run: bool,
    pub double_jump: bool,
    pub fast_travel: bool,
    /// Enter Forest Shrine from Stoneheart City
    pub transition_shc_to_forest: bool,
    /// Enter Uthas Temple from Abandoned Path
    pub transition_ap_to_uthas: bool,
    /// Fire Keep Tear
    pub spirit_fire_keep_tear: bool,
    /// Aerial Rat
    pub spirit_aerial_rat: bool,
    pub void_gate_fire_shrine: bool,
    pub show_completion: bool,
}

impl Default for Settings {
    /// Every split off, except the one on the queen's death; the completion
    /// value shown.
    fn default() -> (s: Self)
        ensures
            s.fire_keep_fire_shrine == false,
            s.arcane_tunnels_fire_shrine == false,
            s.stoneheart_city_fire_shrine == false,
            s.abandoned_path_fire_shrine == false,
            s.temple_gardens_fire_shrine == false,
            s.firefall_river_fire_shrine == false,
            s.steam_house_fire_shrine == false,
            s.ap_soul_fragments_end == false,
            s.tg_soul_fragments_end == false,
            s.ffr_soul_fragments_end == false,
            s.fk_soul_fragments_end == false,
            s.gruh_dead == false,
            s.croh_dead == false,
            s.sirion_dead == false,
            s.beira_dead == false,
            s.samael_dead == false,
            s.queen_dead == true,
            s.shield == false,
            s.fireball == false,
            s.spin == false,
            s.wall_run == false,
            s.double_jump == false,
            s.fast_travel == false,
            s.transition_shc_to_forest == false,
            s.transition_ap_to_uthas == false,
            s.spirit_fire_keep_tear == false,
            s.spirit_aerial_rat == false,
            s.void_gate_fire_shrine == false,
            s.show_completion == true,
    {
        Settings {
            fire_keep_fire_shrine: false,
            arcane_tunnels_fire_shrine: false,
            stoneheart_city_fire_shrine: false,
            abandoned_path_fire_shrine: false,
            temple_gardens_fire_shrine: false,
            firefall_river_fire_shrine: false,
            steam_house_fire_shrine: false,
            ap_soul_fragments_end: false,
            tg_soul_fragments_end: false,
            ffr_soul_fragments_end: false,
            fk_soul_fragments_end: false,
            gruh_dead: false,
            croh_dead: false,
            sirion_dead: false,
            beira_dead: false,
            samael_dead: false,
            queen_dead: true,
            shield: false,
            fireball: false,
            spin: false,
            wall_run: false,
            double_jump: false,
            fast_travel: false,
            transition_shc_to_forest: false,
            transition_ap_to_uthas: false,
            spirit_fire_keep_tear: false,
            spirit_aerial_rat: false,
            void_gate_fire_shrine: false,
            show_completion: true,
        }
    }
}

} // verus!
