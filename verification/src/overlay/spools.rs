//! Spools: what is loaded, its material and its color.
use crate::bambu::models;
use crate::bambu::models::{AmsState, AmsUnit, Tray};
use crate::text;
use vstd::prelude::*;

verus! {

/// One loaded spool.
#[derive(Debug)]
pub struct Spool {
    pub label: String,
    pub material: String,
    pub color: String,
}

/// The view of a spool.
pub struct SpoolView {
    pub label: Seq<char>,
    pub material: Seq<char>,
    pub color: Seq<char>,
}

impl View for Spool {
    type V = SpoolView;

    open spec fn view(&self) -> SpoolView {
        SpoolView { label: self.label@, material: self.material@, color: self.color@ }
    }
}

impl Clone for Spool {
    fn clone(&self) -> (r: Self)
        ensures
            r == *self,
    {
        Spool {
            label: self.label.clone(),
            material: self.material.clone(),
            color: self.color.clone(),
        }
    }
}

/// The views of `spools`, in order.
pub open spec fn spool_views(spools: Seq<Spool>) -> Seq<SpoolView> {
    Seq::new(spools.len(), |i: int| spools[i]@)
}

// ---------------------------------------------------------------------------
// Colors
// ---------------------------------------------------------------------------

/// A reported color without white space around it and without `#` before it.
pub open spec fn bare_color(reported: Seq<char>) -> Seq<char> {
    text::without_leading(text::trimmed(reported), '#')
}

/// Whether the first six bytes of the bare color, where it has so many, are whole characters.
pub open spec fn cuts_cleanly(reported: Seq<char>) -> bool {
    let bytes = vstd::utf8::encode_utf8(bare_color(reported));
    bytes.len() < 6 || vstd::utf8::is_char_boundary(bytes, 6)
}

/// Whether `c` is a hexadecimal digit.
pub open spec fn hex_digit(c: char) -> bool {
    '0' <= c <= '9' || 'a' <= c <= 'f' || 'A' <= c <= 'F'
}

/// Whether `s` writes a hexadecimal number: an optional plus sign, then digits.
pub open spec fn hex_number(s: Seq<char>) -> bool {
    let digits = text::without_plus(s);
    digits.len() > 0 && forall|i: int| 0 <= i < digits.len() ==> hex_digit(#[trigger] digits[i])
}

/// The color that a report names, as `#` and six upper case characters.
///
/// Six characters are read; a color that they do not write, or black with an alpha of zero, is no
/// color.
pub open spec fn color_value(reported: Seq<char>) -> Option<Seq<char>> {
    let bare = bare_color(reported);
    let transparent = bare.len() >= 8 && bare.take(6) == "000000"@ && bare[6] == '0' && bare[7]
        == '0';
    if bare.len() >= 6 && hex_number(bare.take(6)) && !transparent {
        Some("#"@ + text::uppered(bare.take(6)))
    } else {
        None
    }
}

fn is_hex_digit(c: char) -> (r: bool)
    ensures
        r == hex_digit(c),
{
    ('0' <= c && c <= '9') || ('a' <= c && c <= 'f') || ('A' <= c && c <= 'F')
}

fn is_hex_number(s: &str) -> (r: bool)
    ensures
        r == hex_number(s@),
{
    let chars = text::chars_of(s);
    let start: usize = if chars.len() > 0 && chars[0] == '+' {
        1
    } else {
        0
    };
    let ghost digits = text::without_plus(s@);
    assert(digits =~= s@.skip(start as int));
    let mut i: usize = start;
    while i < chars.len()
        invariant
            chars@ == s@,
            start <= i <= chars@.len(),
            digits == s@.skip(start as int),
            digits == text::without_plus(s@),
            forall|j: int| 0 <= j < i - start ==> hex_digit(#[trigger] digits[j]),
        decreases chars.len() - i,
    {
        if !is_hex_digit(chars[i]) {
            assert(!hex_digit(digits[i - start]));
            return false;
        }
        assert(hex_digit(digits[i - start]));
        i = i + 1;
    }
    start < chars.len()
}

/// The color that a report names, if it names one.
fn color_of(reported: &str) -> (r: Option<String>)
    ensures
        match r {
            Some(color) => color_value(reported@) == Some(color@),
            None => color_value(reported@) is None,
        },
{
    let bare = text::trim_start_matches(text::trim(reported), '#');
    let len = bare.unicode_len();
    if len < 6 {
        return None;
    }
    let rgb = bare.substring_char(0, 6);
    assert(rgb@ =~= bare@.take(6));
    if text::same(rgb, "000000") && len >= 8 && bare.get_char(6) == '0' && bare.get_char(7) == '0' {
        return None;
    }
    if !is_hex_number(rgb) {
        return None;
    }
    Some("#".to_owned().concat(text::to_upper(rgb).as_str()))
}

/// Tells whether the first six bytes of the bare color are whole characters.
pub fn color_cuts_cleanly(reported: &str) -> (r: bool)
    ensures
        r == cuts_cleanly(reported@),
{
    let bare = text::trim_start_matches(text::trim(reported), '#');
    bare.as_bytes().len() < 6 || bare.is_char_boundary(6)
}

/// The color that `tray` reports: its own, else its first.
pub open spec fn reported_color(tray: Tray) -> Option<Seq<char>> {
    match tray.color {
        Some(color) => Some(color@),
        None => if tray.cols@.len() > 0 {
            Some(tray.cols@[0]@)
        } else {
            None
        },
    }
}

/// Whether the color of `tray`, where it reports one, can be cut to six bytes.
pub open spec fn color_readable(tray: Tray) -> bool {
    reported_color(tray) matches Some(color) ==> cuts_cleanly(color)
}

/// The color of `tray`, if it has one.
pub open spec fn tray_color(tray: Tray) -> Option<Seq<char>> {
    match reported_color(tray) {
        Some(color) => color_value(color),
        None => None,
    }
}

fn tray_color_of(tray: &Tray) -> (r: Option<String>)
    ensures
        match r {
            Some(color) => tray_color(*tray) == Some(color@),
            None => tray_color(*tray) is None,
        },
{
    match &tray.color {
        Some(color) => color_of(color.as_str()),
        None => if tray.cols.len() > 0 {
            color_of(tray.cols[0].as_str())
        } else {
            None
        },
    }
}

/// The color of `tray` as `#RRGGBB`, if it has one.
pub fn spool_color(tray: &Tray) -> (r: Option<String>)
    requires
        color_readable(*tray),
    ensures
        match r {
            Some(color) => tray_color(*tray) == Some(color@),
            None => tray_color(*tray) is None,
        },
{
    tray_color_of(tray)
}

/// Tells whether the color of `tray` can be cut to six bytes.
pub fn is_color_readable(tray: &Tray) -> (r: bool)
    ensures
        r == color_readable(*tray),
{
    match &tray.color {
        Some(color) => color_cuts_cleanly(color.as_str()),
        None => if tray.cols.len() > 0 {
            color_cuts_cleanly(tray.cols[0].as_str())
        } else {
            true
        },
    }
}

/// A color is `#` and six characters, and reading it again gives it back.
pub proof fn law_color_is_normal(reported: Seq<char>)
    ensures
        color_value(reported) matches Some(color) ==> {
            &&& color.len() == 7
            &&& color[0] == '#'
            &&& color_value(color) == Some(color)
            &&& cuts_cleanly(color)
        },
{
    if let Some(color) = color_value(reported) {
        reveal_strlit("#");
        reveal_strlit("000000");
        let six = bare_color(reported).take(6);
        let up = text::uppered(six);
        assert(color =~= seq!['#'] + up);
        assert(color.drop_first() =~= up);
        let digits = text::without_plus(six);
        assert forall|i: int| 0 <= i < 6 implies six[i] == '+' || hex_digit(#[trigger] six[i]) by {
            if six[0] == '+' {
                if i > 0 {
                    assert(digits[i - 1] == six[i]);
                }
            } else {
                assert(digits[i] == six[i]);
            }
        }
        assert forall|i: int| 0 <= i < 6 implies {
            &&& text::upper(#[trigger] up[i]) == up[i]
            &&& up[i] == '+' || hex_digit(up[i])
            &&& (six[i] == '+' <==> up[i] == '+')
        } by {
            assert(six[i] == '+' || hex_digit(six[i]));
        }
        assert(!text::white_space(color[0]));
        assert(color.last() == up[5]);
        assert(text::trimmed_start(color) == color);
        assert(text::trimmed(color) == color);
        assert(up[0] != '#');
        assert(text::without_leading(up, '#') == up);
        assert(bare_color(color) == up);
        assert(up.take(6) =~= up);
        assert(text::uppered(up) =~= up);
        let updigits = text::without_plus(up);
        assert forall|i: int| 0 <= i < updigits.len() implies hex_digit(#[trigger] updigits[i]) by {
            if six[0] == '+' {
                assert(updigits[i] == up[i + 1]);
                assert(digits[i] == six[i + 1]);
                assert(hex_digit(digits[i]));
            } else {
                assert(updigits[i] == up[i]);
                assert(digits[i] == six[i]);
                assert(hex_digit(digits[i]));
            }
        }
        assert(hex_number(up));
        assert(vstd::utf8::is_ascii_chars(up));
        vstd::utf8::is_ascii_chars_encode_utf8(up);
        vstd::utf8::encode_utf8_valid_utf8(up);
        vstd::utf8::is_char_boundary_start_end_of_seq(vstd::utf8::encode_utf8(up));
    }
}

// ---------------------------------------------------------------------------
// Spools
// ---------------------------------------------------------------------------

/// The material of `tray`: its type, else its name, else its brand, else its index.
pub open spec fn tray_material(tray: Tray) -> Option<String> {
    models::either(
        tray.material,
        models::either(tray.display_name, models::either(tray.sub_brand, tray.info_index)),
    )
}

/// The spool in `tray`, which is there where a material or a color is known.
pub open spec fn tray_spool(tray: Tray, label: Seq<char>) -> Option<SpoolView> {
    if tray_material(tray) is None && tray_color(tray) is None {
        None
    } else {
        Some(
            SpoolView {
                label,
                material: match tray_material(tray) {
                    Some(material) => material@,
                    None => "Filament"@,
                },
                color: match tray_color(tray) {
                    Some(color) => color,
                    None => "#9CA3AF"@,
                },
            },
        )
    }
}

fn material_of(tray: &Tray) -> (r: Option<String>)
    ensures
        r == tray_material(*tray),
{
    if tray.material.is_some() {
        tray.material.clone()
    } else if tray.display_name.is_some() {
        tray.display_name.clone()
    } else if tray.sub_brand.is_some() {
        tray.sub_brand.clone()
    } else {
        tray.info_index.clone()
    }
}

/// The spool in `tray`, under `label`, if there is one.
pub fn spool_summary(tray: &Tray, label: String) -> (r: Option<Spool>)
    requires
        color_readable(*tray),
    ensures
        match r {
            Some(spool) => tray_spool(*tray, label@) == Some(spool@),
            None => tray_spool(*tray, label@) is None,
        },
{
    let material = material_of(tray);
    let color = spool_color(tray);
    if material.is_none() && color.is_none() {
        return None;
    }
    let material = match material {
        Some(material) => material,
        None => "Filament".to_owned(),
    };
    let color = match color {
        Some(color) => color,
        None => "#9CA3AF".to_owned(),
    };
    Some(Spool { label, material, color })
}

impl Tray {
    /// Whether something is known of a spool in the tray.
    pub open spec fn holds_spool(self) -> bool {
        tray_material(self) is Some || tray_color(self) is Some
    }

    /// Tells whether something is known of a spool in the tray.
    pub fn has_spool_data(&self) -> (r: bool)
        ensures
            r == self.holds_spool(),
    {
        material_of(self).is_some() || tray_color_of(self).is_some()
    }
}

impl AmsUnit {
    /// Whether something is known of a spool in one of the trays.
    pub open spec fn holds_spool(self) -> bool {
        exists|i: int| 0 <= i < self.tray@.len() && (#[trigger] self.tray@[i]).holds_spool()
    }

    fn has_spool_data(&self) -> (r: bool)
        ensures
            r == self.holds_spool(),
    {
        let mut i: usize = 0;
        while i < self.tray.len()
            invariant
                i <= self.tray@.len(),
                forall|j: int| 0 <= j < i ==> !(#[trigger] self.tray@[j]).holds_spool(),
            decreases self.tray.len() - i,
        {
            if self.tray[i].has_spool_data() {
                return true;
            }
            i = i + 1;
        }
        false
    }
}

impl AmsState {
    /// Whether something is known of a spool in one of the units.
    pub open spec fn holds_spool(self) -> bool {
        exists|i: int| 0 <= i < self.ams@.len() && (#[trigger] self.ams@[i]).holds_spool()
    }

    /// Tells whether something is known of a spool in one of the units.
    pub fn has_spool_data(&self) -> (r: bool)
        ensures
            r == self.holds_spool(),
    {
        let mut i: usize = 0;
        while i < self.ams.len()
            invariant
                i <= self.ams@.len(),
                forall|j: int| 0 <= j < i ==> !(#[trigger] self.ams@[j]).holds_spool(),
            decreases self.ams.len() - i,
        {
            if self.ams[i].has_spool_data() {
                return true;
            }
            i = i + 1;
        }
        false
    }
}

/// The number that a label shows: one more than `id`, else one more than `index`.
pub open spec fn shown_number(id: Option<i64>, index: int) -> int {
    match id {
        Some(id) => id + 1,
        None => index + 1,
    }
}

/// The label of a tray; where there are several units, it names the unit too.
pub open spec fn tray_label(
    several: bool,
    unit: AmsUnit,
    unit_index: int,
    tray_index: int,
) -> Seq<char> {
    let own = text::signed_decimal(shown_number(unit.tray@[tray_index].id, tray_index));
    if several {
        text::signed_decimal(shown_number(unit.id, unit_index)) + "-"@ + own
    } else {
        own
    }
}

/// A sequence of the value that is there, if one is.
pub open spec fn at_most_one<T>(value: Option<T>) -> Seq<T> {
    match value {
        Some(value) => seq![value],
        None => Seq::empty(),
    }
}

/// The spools in the first `n` trays of a unit.
pub open spec fn unit_spools(several: bool, unit: AmsUnit, unit_index: int, n: int) -> Seq<
    SpoolView,
>
    decreases n,
{
    if n <= 0 {
        Seq::empty()
    } else {
        unit_spools(several, unit, unit_index, n - 1) + at_most_one(
            tray_spool(unit.tray@[n - 1], tray_label(several, unit, unit_index, n - 1)),
        )
    }
}

/// The spools in the first `n` units.
pub open spec fn first_spools(ams: AmsState, n: int) -> Seq<SpoolView>
    decreases n,
{
    if n <= 0 {
        Seq::empty()
    } else {
        let unit = ams.ams@[n - 1];
        first_spools(ams, n - 1) + unit_spools(
            ams.ams@.len() > 1,
            unit,
            n - 1,
            unit.tray@.len() as int,
        )
    }
}

/// The spools in all trays of all units, in order.
pub open spec fn loaded_spools(ams: Option<AmsState>) -> Seq<SpoolView> {
    match ams {
        Some(ams) => first_spools(ams, ams.ams@.len() as int),
        None => Seq::empty(),
    }
}

impl AmsState {
    /// Whether every tray can be labelled, and its color read.
    pub open spec fn readable(self) -> bool {
        &&& forall|u: int, t: int|
            0 <= u < self.ams@.len() && 0 <= t < self.ams@[u].tray@.len() ==> {
                &&& color_readable(#[trigger] self.ams@[u].tray@[t])
                &&& self.ams@[u].tray@[t].id != Some(i64::MAX)
            }
        &&& self.ams@.len() > 1 ==> forall|u: int|
            0 <= u < self.ams@.len() && (#[trigger] self.ams@[u]).tray@.len() > 0
                ==> self.ams@[u].id != Some(i64::MAX)
    }

    /// Tells whether every tray can be labelled, and its color read.
    pub fn is_readable(&self) -> (r: bool)
        ensures
            r == self.readable(),
    {
        let several = self.ams.len() > 1;
        let mut u: usize = 0;
        while u < self.ams.len()
            invariant
                u <= self.ams@.len(),
                several == (self.ams@.len() > 1),
                forall|v: int, t: int|
                    0 <= v < u && 0 <= t < self.ams@[v].tray@.len() ==> {
                        &&& color_readable(#[trigger] self.ams@[v].tray@[t])
                        &&& self.ams@[v].tray@[t].id != Some(i64::MAX)
                    },
                several ==> forall|v: int|
                    0 <= v < u && (#[trigger] self.ams@[v]).tray@.len() > 0 ==> self.ams@[v].id
                        != Some(i64::MAX),
            decreases self.ams.len() - u,
        {
            let unit = &self.ams[u];
            if several && unit.tray.len() > 0 {
                if let Some(id) = unit.id {
                    if id == i64::MAX {
                        assert(self.ams@[u as int].id == Some(i64::MAX));
                        return false;
                    }
                }
            }
            let mut t: usize = 0;
            while t < unit.tray.len()
                invariant
                    u < self.ams@.len(),
                    *unit == self.ams@[u as int],
                    t <= unit.tray@.len(),
                    forall|s: int|
                        0 <= s < t ==> {
                            &&& color_readable(#[trigger] unit.tray@[s])
                            &&& unit.tray@[s].id != Some(i64::MAX)
                        },
                decreases unit.tray.len() - t,
            {
                let tray = &unit.tray[t];
                if !is_color_readable(tray) {
                    assert(!color_readable(self.ams@[u as int].tray@[t as int]));
                    return false;
                }
                if let Some(id) = tray.id {
                    if id == i64::MAX {
                        assert(self.ams@[u as int].tray@[t as int].id == Some(i64::MAX));
                        return false;
                    }
                }
                t = t + 1;
            }
            u = u + 1;
        }
        true
    }
}

fn number_text(id: Option<i64>, index: usize) -> (r: String)
    requires
        id != Some(i64::MAX),
    ensures
        r@ == text::signed_decimal(shown_number(id, index as int)),
{
    match id {
        Some(id) => text::signed_text(id as i128 + 1),
        None => text::signed_text(index as i128 + 1),
    }
}

/// The spools in all trays of all units, in order.
pub fn ams_spools(ams: Option<&AmsState>) -> (r: Vec<Spool>)
    requires
        ams matches Some(ams) ==> ams.readable(),
    ensures
        spool_views(r@) == loaded_spools(
            match ams {
                Some(ams) => Some(*ams),
                None => None,
            },
        ),
{
    let mut spools: Vec<Spool> = Vec::new();
    let state = match ams {
        Some(state) => state,
        None => {
            assert(spool_views(spools@) =~= Seq::empty());
            return spools;
        },
    };
    let several = state.ams.len() > 1;
    let mut u: usize = 0;
    assert(spool_views(spools@) =~= first_spools(*state, 0));
    while u < state.ams.len()
        invariant
            u <= state.ams@.len(),
            state.readable(),
            several == (state.ams@.len() > 1),
            spool_views(spools@) == first_spools(*state, u as int),
        decreases state.ams.len() - u,
    {
        let unit = &state.ams[u];
        let ghost done = first_spools(*state, u as int);
        let mut t: usize = 0;
        assert(done + unit_spools(several, *unit, u as int, 0) =~= done);
        while t < unit.tray.len()
            invariant
                u < state.ams@.len(),
                state.readable(),
                *unit == state.ams@[u as int],
                several == (state.ams@.len() > 1),
                t <= unit.tray@.len(),
                spool_views(spools@) == done + unit_spools(several, *unit, u as int, t as int),
            decreases unit.tray.len() - t,
        {
            let tray = &unit.tray[t];
            assert(*tray == state.ams@[u as int].tray@[t as int]);
            let mut label = number_text(tray.id, t);
            if several {
                label = number_text(unit.id, u).concat("-").concat(label.as_str());
            }
            let ghost before = spools@;
            let ghost grown = unit_spools(several, *unit, u as int, t as int);
            match spool_summary(tray, label) {
                Some(spool) => {
                    spools.push(spool);
                    assert(spool_views(spools@) =~= spool_views(before).push(spool@));
                    assert(spool_views(spools@) =~= done + (grown + seq![spool@]));
                },
                None => {
                    assert(done + (grown + Seq::empty()) =~= done + grown);
                },
            }
            t = t + 1;
        }
        u = u + 1;
    }
    spools
}

/// The spool in the external tray, if there is one.
pub open spec fn outside_spool(tray: Option<Tray>) -> Option<SpoolView> {
    match tray {
        Some(tray) => tray_spool(tray, "ext"@),
        None => None,
    }
}

/// The spool in the external tray, if there is one.
pub fn external_spool(tray: Option<&Tray>) -> (r: Option<Spool>)
    requires
        tray matches Some(tray) ==> color_readable(*tray),
    ensures
        (match r {
            Some(spool) => Some(spool@),
            None => None,
        }) == outside_spool(
            match tray {
                Some(tray) => Some(*tray),
                None => None,
            },
        ),
{
    match tray {
        Some(tray) => spool_summary(tray, "ext".to_owned()),
        None => None,
    }
}

/// A tray has a spool to show exactly where something is known of one.
pub proof fn law_spool_where_data(tray: Tray, label: Seq<char>)
    ensures
        tray_spool(tray, label) is Some <==> tray.holds_spool(),
{
}

/// A spool is of the material type that its tray reports, whatever else that reports; else it goes
/// by its display name, else by its brand, and by its index only where all of these are absent. Of
/// a spool of which none is known, the material is `Filament`.
pub proof fn law_material_is_the_type_first(tray: Tray, label: Seq<char>)
    ensures
        tray.material matches Some(material) ==> tray_spool(tray, label) is Some && tray_spool(
            tray,
            label,
        )->0.material == material@,
        tray.material is None ==> (tray.display_name matches Some(name) ==> tray_spool(
            tray,
            label,
        ) is Some && tray_spool(tray, label)->0.material == name@),
        tray.material is None && tray.display_name is None ==> (tray.sub_brand matches Some(
            brand,
        ) ==> tray_spool(tray, label) is Some && tray_spool(tray, label)->0.material == brand@),
        tray.material is None && tray.display_name is None && tray.sub_brand is None ==> (
        tray.info_index matches Some(index) ==> tray_spool(tray, label) is Some && tray_spool(
            tray,
            label,
        )->0.material == index@),
        tray.material is None && tray.display_name is None && tray.sub_brand is None
            && tray.info_index is None ==> (tray_spool(tray, label) matches Some(spool)
            ==> spool.material == "Filament"@),
        tray_spool(tray, label) matches Some(spool) ==> spool.label == label,
{
}

/// A spool has the color that its tray reports for it, else the first of its colors; where neither
/// is a color, it is gray. A tray shows a spool exactly where it reports a material or a color.
pub proof fn law_color_is_the_own_first(tray: Tray, label: Seq<char>)
    ensures
        tray.color matches Some(color) ==> tray_color(tray) == color_value(color@),
        tray.color is None && tray.cols@.len() > 0 ==> tray_color(tray) == color_value(
            tray.cols@[0]@,
        ),
        tray.color is None && tray.cols@.len() == 0 ==> tray_color(tray) is None,
        tray_spool(tray, label) is Some <==> tray.material is Some || tray.display_name is Some
            || tray.sub_brand is Some || tray.info_index is Some || tray_color(tray) is Some,
        tray_spool(tray, label) matches Some(spool) ==> spool.color == (if tray_color(tray) is Some {
            tray_color(tray)->0
        } else {
            "#9CA3AF"@
        }),
        tray.holds_spool() <==> tray_spool(tray, label) is Some,
{
}

/// Whether `c` is one of the digits of a hexadecimal number, by its code.
pub open spec fn digit_code(c: char) -> bool {
    48 <= c as u32 <= 57 || 65 <= c as u32 <= 70 || 97 <= c as u32 <= 102
}

proof fn lemma_digit_code(c: char)
    ensures
        digit_code(c) <==> hex_digit(c),
        digit_code(c) ==> c != '+' && c != '#' && !text::white_space(c),
{
}

/// Six hexadecimal digits are a color: a number sign and the same digits, those from `a` to `f` in
/// upper case. What follows them does not count, but for eight zeros, which are no color. White
/// space around a color and number signs before it do not count either.
pub proof fn law_color_is_its_first_six_digits(
    before: Seq<char>,
    signs: Seq<char>,
    six: Seq<char>,
    rest: Seq<char>,
    after: Seq<char>,
)
    requires
        forall|i: int| 0 <= i < before.len() ==> text::white_space(#[trigger] before[i]),
        forall|i: int| 0 <= i < signs.len() ==> #[trigger] signs[i] == '#',
        six.len() == 6,
        forall|i: int| 0 <= i < 6 ==> digit_code(#[trigger] six[i]),
        rest.len() > 0 ==> !text::white_space(rest.last()),
        forall|i: int| 0 <= i < after.len() ==> text::white_space(#[trigger] after[i]),
    ensures
        ({
            let value = color_value(before + (signs + (six + rest)) + after);
            if rest.len() >= 2 && rest[0] == '0' && rest[1] == '0' && forall|i: int|
                0 <= i < 6 ==> #[trigger] six[i] == '0' {
                value is None
            } else {
                &&& value is Some
                &&& value->0.len() == 7
                &&& value->0[0] == '#'
                &&& forall|i: int|
                    0 <= i < 6 ==> (#[trigger] value->0[i + 1]) as u32 == (if 97 <= six[i] as u32 {
                        six[i] as u32 - 32
                    } else {
                        six[i] as int
                    })
            }
        }),
{
    let body = six + rest;
    let inner = signs + body;
    let whole = before + inner + after;
    reveal_strlit("#");
    reveal_strlit("000000");
    lemma_digit_code(six[0]);
    lemma_digit_code(six[5]);
    assert(digit_code(six[0]) && digit_code(six[5]));
    assert(body.last() == if rest.len() > 0 { rest.last() } else { six[5] });
    assert(inner.last() == body.last());
    assert(inner[0] == if signs.len() > 0 { signs[0] } else { six[0] });
    text::law_trim_takes_white_space_around(before, inner, after);
    assert(body[0] == six[0]);
    lemma_without_signs(signs, body);
    assert(bare_color(whole) == body);
    assert(body.take(6) =~= six);
    assert forall|i: int| 0 <= i < 6 implies hex_digit(#[trigger] six[i]) by {
        lemma_digit_code(six[i]);
    }
    assert(text::without_plus(six) == six);
    assert(hex_number(six));
    let value = color_value(whole);
    let zeros = forall|i: int| 0 <= i < 6 ==> #[trigger] six[i] == '0';
    if zeros {
        assert(six =~= "000000"@);
    } else if six == "000000"@ {
        assert forall|i: int| 0 <= i < 6 implies #[trigger] six[i] == '0' by {}
    }
    if rest.len() >= 2 {
        assert(body[6] == rest[0] && body[7] == rest[1]);
    }
    if value is Some {
        assert forall|i: int| 0 <= i < 6 implies (#[trigger] value->0[i + 1]) as u32 == (if 97
            <= six[i] as u32 {
            six[i] as u32 - 32
        } else {
            six[i] as int
        }) by {
            assert(digit_code(six[i]));
            assert(value->0[i + 1] == text::uppered(six)[i]);
        }
    }
}

/// A text of less than six characters is no color, nor is one with anything but digits, or a plus
/// sign before five of them, among its first six.
pub proof fn law_other_texts_are_no_color(body: Seq<char>, at: int)
    requires
        body.len() > 0 ==> body[0] != '#' && !text::white_space(body[0]) && !text::white_space(
            body.last(),
        ),
        body.len() < 6 || (0 <= at < 6 && !digit_code(body[at]) && (at > 0 || body[at] != '+')),
    ensures
        color_value(body) is None,
{
    let none = Seq::<char>::empty();
    text::law_trim_takes_white_space_around(none, body, none);
    assert(none + body + none =~= body);
    assert(bare_color(body) == body);
    if body.len() >= 6 {
        let six = body.take(6);
        let digits = text::without_plus(six);
        if six[0] == '+' {
            assert(digits[at - 1] == body[at]);
            assert(!hex_digit(digits[at - 1]));
        } else {
            assert(digits[at] == body[at]);
            assert(!hex_digit(digits[at]));
        }
    }
}

proof fn lemma_without_signs(signs: Seq<char>, body: Seq<char>)
    requires
        forall|i: int| 0 <= i < signs.len() ==> #[trigger] signs[i] == '#',
        body.len() > 0,
        body[0] != '#',
    ensures
        text::without_leading(signs + body, '#') == body,
    decreases signs.len(),
{
    if signs.len() == 0 {
        assert(signs + body =~= body);
    } else {
        let fewer = signs.drop_first();
        assert((signs + body)[0] == signs[0]);
        assert((signs + body).drop_first() =~= fewer + body);
        assert forall|i: int| 0 <= i < fewer.len() implies #[trigger] fewer[i] == '#' by {
            assert(fewer[i] == signs[i + 1]);
        }
        lemma_without_signs(fewer, body);
    }
}

/// A tray is labelled by the number that follows its own, counted from one where it has none; where
/// there are several units, by that of its unit before it, with a hyphen between them. The external
/// tray is labelled `ext`.
pub proof fn law_labels_count_from_one(
    several: bool,
    unit: AmsUnit,
    unit_index: int,
    tray_index: int,
    tray: Tray,
)
    requires
        0 <= tray_index < unit.tray@.len(),
    ensures
        ({
            let own = text::signed_decimal(
                if unit.tray@[tray_index].id is Some {
                    unit.tray@[tray_index].id->0 + 1
                } else {
                    tray_index + 1
                },
            );
            let of_unit = text::signed_decimal(
                if unit.id is Some {
                    unit.id->0 + 1
                } else {
                    unit_index + 1
                },
            );
            tray_label(several, unit, unit_index, tray_index) == if several {
                of_unit + seq!['-'] + own
            } else {
                own
            }
        }),
        outside_spool(Some(tray)) is Some ==> outside_spool(Some(tray))->0.label == seq![
            'e',
            'x',
            't',
        ],
        outside_spool(Some(tray)) is Some <==> tray.holds_spool(),
        outside_spool(Some(tray)) matches Some(spool) ==> spool.material == tray_spool(
            tray,
            spool.label,
        )->0.material && spool.color == tray_spool(tray, spool.label)->0.color,
        outside_spool(None) is None,
{
    reveal_strlit("-");
    reveal_strlit("ext");
    assert("-"@ =~= seq!['-']);
    assert("ext"@ =~= seq!['e', 'x', 't']);
}

/// How many of the first `n` trays of a unit hold a spool.
pub open spec fn spools_in_unit(unit: AmsUnit, n: int) -> nat
    decreases n,
{
    if n <= 0 {
        0
    } else if unit.tray@[n - 1].holds_spool() {
        spools_in_unit(unit, n - 1) + 1
    } else {
        spools_in_unit(unit, n - 1)
    }
}

/// How many trays of the first `n` units hold a spool.
pub open spec fn spools_in_units(ams: AmsState, n: int) -> nat
    decreases n,
{
    if n <= 0 {
        0
    } else {
        spools_in_units(ams, n - 1) + spools_in_unit(
            ams.ams@[n - 1],
            ams.ams@[n - 1].tray@.len() as int,
        )
    }
}

/// Each tray that holds a spool is shown once, after as many spools as there are in the trays and
/// units before it, and nothing else is shown. A label names the unit exactly where there are
/// several.
pub proof fn law_every_spool_is_shown_in_its_place(ams: AmsState, u: int, t: int)
    requires
        0 <= u < ams.ams@.len(),
        0 <= t < ams.ams@[u].tray@.len(),
    ensures
        loaded_spools(Some(ams)).len() == spools_in_units(ams, ams.ams@.len() as int),
        ams.ams@[u].tray@[t].holds_spool() ==> {
            let place = spools_in_units(ams, u) + spools_in_unit(ams.ams@[u], t);
            let unit = ams.ams@[u];
            &&& place < loaded_spools(Some(ams)).len()
            &&& Some(loaded_spools(Some(ams))[place as int]) == tray_spool(
                unit.tray@[t],
                tray_label(ams.ams@.len() >= 2, unit, u, t),
            )
        },
        loaded_spools(None).len() == 0,
        ams.holds_spool() <==> loaded_spools(Some(ams)).len() > 0,
{
    lemma_first_spools(ams, ams.ams@.len() as int, u, t);
    lemma_units_hold(ams, ams.ams@.len() as int);
}

/// Without a unit, or with nothing but empty units, nothing is shown.
pub proof fn law_nothing_is_shown_of_no_trays(ams: AmsState)
    requires
        forall|u: int| 0 <= u < ams.ams@.len() ==> (#[trigger] ams.ams@[u]).tray@.len() == 0,
    ensures
        loaded_spools(Some(ams)).len() == 0,
{
    lemma_no_trays(ams, ams.ams@.len() as int);
}

proof fn lemma_no_trays(ams: AmsState, n: int)
    requires
        0 <= n <= ams.ams@.len(),
        forall|u: int| 0 <= u < ams.ams@.len() ==> (#[trigger] ams.ams@[u]).tray@.len() == 0,
    ensures
        first_spools(ams, n).len() == 0,
    decreases n,
{
    if n > 0 {
        lemma_no_trays(ams, n - 1);
        assert(ams.ams@[n - 1].tray@.len() == 0);
    }
}

proof fn lemma_unit_spools(several: bool, unit: AmsUnit, unit_index: int, n: int, t: int)
    requires
        0 <= n <= unit.tray@.len(),
    ensures
        unit_spools(several, unit, unit_index, n).len() == spools_in_unit(unit, n),
        0 <= t < n && unit.tray@[t].holds_spool() ==> {
            &&& spools_in_unit(unit, t) < spools_in_unit(unit, n)
            &&& Some(
                unit_spools(several, unit, unit_index, n)[spools_in_unit(unit, t) as int],
            ) == tray_spool(unit.tray@[t], tray_label(several, unit, unit_index, t))
        },
    decreases n,
{
    if n > 0 {
        lemma_unit_spools(several, unit, unit_index, n - 1, t);
        law_spool_where_data(unit.tray@[n - 1], tray_label(several, unit, unit_index, n - 1));
    }
}

proof fn lemma_first_spools(ams: AmsState, n: int, u: int, t: int)
    requires
        0 <= n <= ams.ams@.len(),
        0 <= u < ams.ams@.len(),
        0 <= t < ams.ams@[u].tray@.len(),
    ensures
        first_spools(ams, n).len() == spools_in_units(ams, n),
        u < n && ams.ams@[u].tray@[t].holds_spool() ==> {
            let place = spools_in_units(ams, u) + spools_in_unit(ams.ams@[u], t);
            &&& place < spools_in_units(ams, n)
            &&& Some(first_spools(ams, n)[place as int]) == tray_spool(
                ams.ams@[u].tray@[t],
                tray_label(ams.ams@.len() > 1, ams.ams@[u], u, t),
            )
        },
    decreases n,
{
    if n > 0 {
        lemma_first_spools(ams, n - 1, u, t);
        let unit = ams.ams@[n - 1];
        lemma_unit_spools(ams.ams@.len() > 1, unit, n - 1, unit.tray@.len() as int, t);
    }
}

proof fn lemma_unit_holds(unit: AmsUnit, n: int)
    requires
        0 <= n <= unit.tray@.len(),
    ensures
        spools_in_unit(unit, n) > 0 <==> exists|t: int|
            0 <= t < n && (#[trigger] unit.tray@[t]).holds_spool(),
    decreases n,
{
    if n > 0 {
        lemma_unit_holds(unit, n - 1);
    }
}

proof fn lemma_units_hold(ams: AmsState, n: int)
    requires
        0 <= n <= ams.ams@.len(),
    ensures
        spools_in_units(ams, n) > 0 <==> exists|u: int|
            0 <= u < n && (#[trigger] ams.ams@[u]).holds_spool(),
    decreases n,
{
    if n > 0 {
        lemma_units_hold(ams, n - 1);
        lemma_unit_holds(ams.ams@[n - 1], ams.ams@[n - 1].tray@.len() as int);
    }
}

/// The view of a spool is what it holds, and the views of several are theirs, in order.
pub proof fn law_spool_view_is_what_it_holds(spool: Spool, spools: Seq<Spool>)
    ensures
        spool@.label == spool.label@,
        spool@.material == spool.material@,
        spool@.color == spool.color@,
        spool_views(spools).len() == spools.len(),
        forall|i: int| 0 <= i < spools.len() ==> #[trigger] spool_views(spools)[i] == spools[i]@,
{
}

/// Every color of ASCII characters can be cut to six bytes, whatever stands around it.
pub proof fn law_plain_colors_cut_cleanly(
    before: Seq<char>,
    signs: Seq<char>,
    body: Seq<char>,
    after: Seq<char>,
)
    requires
        forall|i: int| 0 <= i < before.len() ==> text::white_space(#[trigger] before[i]),
        forall|i: int| 0 <= i < signs.len() ==> #[trigger] signs[i] == '#',
        forall|i: int| 0 <= i < after.len() ==> text::white_space(#[trigger] after[i]),
        body.len() > 0,
        body[0] != '#',
        !text::white_space(body[0]),
        !text::white_space(body.last()),
        vstd::utf8::is_ascii_chars(body),
    ensures
        cuts_cleanly(before + (signs + body) + after),
{
    let inner = signs + body;
    assert(inner[0] == if signs.len() > 0 { signs[0] } else { body[0] });
    assert(inner.last() == body.last());
    text::law_trim_takes_white_space_around(before, inner, after);
    lemma_without_signs(signs, body);
    let bytes = vstd::utf8::encode_utf8(body);
    vstd::utf8::is_ascii_chars_encode_utf8(body);
    vstd::utf8::encode_utf8_valid_utf8(body);
    vstd::utf8::is_char_boundary_start_end_of_seq(bytes);
    if bytes.len() > 6 {
        assert(bytes[6] == body[6] as u8);
        assert(bytes[6] < 0x80) by {
            assert(body[6] as u32 <= 127);
        }
        vstd::utf8::is_char_boundary_iff_not_is_continuation_byte(bytes, 6);
    }
}

/// Trays can be shown where each color that counts can be cut, and no number that is shown would be
/// over the largest one; and a single unit shows none of its own.
pub proof fn law_trays_can_be_shown(ams: &AmsState, r: bool, tray: &Tray, shown: bool)
    requires
        call_ensures(AmsState::is_readable, (ams,), r),
        call_ensures(is_color_readable, (tray,), shown),
    ensures
        r <==> {
            &&& forall|u: int, t: int|
                0 <= u < ams.ams@.len() && 0 <= t < ams.ams@[u].tray@.len() ==> color_readable(
                    #[trigger] ams.ams@[u].tray@[t],
                ) && ams.ams@[u].tray@[t].id != Some(i64::MAX)
            &&& forall|u: int|
                0 <= u < ams.ams@.len() && ams.ams@.len() >= 2 && (
                #[trigger] ams.ams@[u]).tray@.len() > 0 ==> ams.ams@[u].id != Some(i64::MAX)
        },
        tray.color matches Some(color) ==> (shown <==> cuts_cleanly(color@)),
        tray.color is None && tray.cols@.len() > 0 ==> (shown <==> cuts_cleanly(tray.cols@[0]@)),
        tray.color is None && tray.cols@.len() == 0 ==> shown,
        color_readable(*tray) <==> shown,
{
}

} // verus!
