use crate::text::{decimal, digits, push_decimal, push_digits, push_str, string_of};
use vstd::prelude::*;

verus! {

/// The address of the media lookup of an episode, before its id.
pub const EPISODE_MEDIA_URL_HEAD: &'static str =
    "https://dinamics.ccma.cat/pvideo/media.jsp?media=video&version=0s&idint=";

/// The address of a season listing, before the show id.
pub const SEASON_LISTING_URL_HEAD: &'static str = "https://www.3cat.cat/api/3cat/dades/?queryKey=%5B%22tira%22%2C%7B%22url%22%3A%22https%3A%2F%2Fapi.3cat.cat%2Fvideos%3F_format%3Djson%26ordre%3Dcapitol%26origen%3Dllistat%26perfil%3Dpc%26programatv_id%3D";

/// The address of a season listing, between the show id and the season number.
pub const SEASON_LISTING_URL_MIDDLE: &'static str = "%26tipus_contingut%3DPPD%26items_pagina%3D1000%26pagina%3D1%26sdom%3Dimg%26version%3D2.0%26cache%3D180%26temporada%3DPUTEMP_";

/// The address of a season listing, after the season number.
pub const SEASON_LISTING_URL_TAIL: &'static str = "%26https%3Dtrue%26master%3Dyes%26perfils_extra%3Dimatges_minim_master%22%2C%22moduleName%22%3A%22BlocDeContinguts%22%7D%5D";

/// The address of the media lookup of the episode with the given id.
pub fn episode_media_url(episode_id: i32) -> (r: String)
    ensures
        r@ == EPISODE_MEDIA_URL_HEAD@ + decimal(episode_id as int),
{
    let mut out: Vec<char> = Vec::new();
    push_str(&mut out, EPISODE_MEDIA_URL_HEAD);
    push_decimal(&mut out, episode_id);
    string_of(&out)
}

/// The address of the listing of one season of a show.
pub fn season_listing_url(show_id: i32, season: u32) -> (r: String)
    ensures
        r@ == SEASON_LISTING_URL_HEAD@ + decimal(show_id as int) + SEASON_LISTING_URL_MIDDLE@
            + digits(season as nat) + SEASON_LISTING_URL_TAIL@,
{
    let mut out: Vec<char> = Vec::new();
    push_str(&mut out, SEASON_LISTING_URL_HEAD);
    push_decimal(&mut out, show_id);
    push_str(&mut out, SEASON_LISTING_URL_MIDDLE);
    push_digits(&mut out, season as u64);
    push_str(&mut out, SEASON_LISTING_URL_TAIL);
    string_of(&out)
}

} // verus!
