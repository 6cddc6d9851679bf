//! The phosphor database: phosphor types, their emission layers, and the
//! rules that turn a parsed database entry into a phosphor.
//!
//! An entry names either a measured spectrum or the width of a Gaussian peak
//! for each layer. Turning that into band weights takes file access and
//! arithmetic, so it happens in two steps: [`plan_emission`] says where each
//! layer's weights come from, and [`build_phosphor`] assembles the phosphor
//! once the caller has worked them out.

use vstd::prelude::*;
use crate::binary32::Binary32;
use crate::decay::DecayTerm;
use crate::text::{collect_chars, piece_equals};

verus! {

/// Broad family of a phosphor.
#[derive(Clone, Copy, Debug, PartialEq, Eq, Structural)]
pub enum PhosphorCategory {
    GeneralPurpose,
    ShortDecay,
    VideoDisplay,
    LongDecaySulfide,
}

/// What can be wrong with a database entry.
#[derive(Clone, Copy, Debug, PartialEq, Eq, Structural)]
pub enum PhosphorError {
    /// The category is none of the four known names.
    UnknownCategory,
    /// `dual_layer` is set but the fluorescence table is missing.
    MissingFluorescence,
    /// `dual_layer` is set but the phosphorescence table is missing.
    MissingPhosphorescence,
    /// A layer gives neither a spectrum table nor a peak width.
    MissingEmissionProfile,
}

impl PhosphorCategory {
    /// The name of the category in a database file.
    pub open spec fn name_spec(self) -> Seq<char> {
        match self {
            PhosphorCategory::GeneralPurpose => "general_purpose"@,
            PhosphorCategory::ShortDecay => "short_decay"@,
            PhosphorCategory::VideoDisplay => "video_display"@,
            PhosphorCategory::LongDecaySulfide => "long_decay_sulfide"@,
        }
    }

    /// The name of the category in a database file.
    pub fn name(self) -> (s: &'static str)
        ensures
            s@ == self.name_spec(),
    {
        match self {
            PhosphorCategory::GeneralPurpose => "general_purpose",
            PhosphorCategory::ShortDecay => "short_decay",
            PhosphorCategory::VideoDisplay => "video_display",
            PhosphorCategory::LongDecaySulfide => "long_decay_sulfide",
        }
    }
}

/// The category that a name stands for.
pub open spec fn category_named(name: Seq<char>) -> Option<PhosphorCategory> {
    if name == "general_purpose"@ {
        Some(PhosphorCategory::GeneralPurpose)
    } else if name == "short_decay"@ {
        Some(PhosphorCategory::ShortDecay)
    } else if name == "video_display"@ {
        Some(PhosphorCategory::VideoDisplay)
    } else if name == "long_decay_sulfide"@ {
        Some(PhosphorCategory::LongDecaySulfide)
    } else {
        None
    }
}

/// Each category is found again under its own name.
pub proof fn lemma_category_name_round_trip(category: PhosphorCategory)
    ensures
        category_named(category.name_spec()) == Some(category),
{
    reveal_strlit("general_purpose");
    reveal_strlit("short_decay");
    reveal_strlit("video_display");
    reveal_strlit("long_decay_sulfide");
    assert("general_purpose"@.len() == 15);
    assert("short_decay"@.len() == 11);
    assert("video_display"@.len() == 13);
    assert("long_decay_sulfide"@.len() == 18);
}

fn spells(name: &[char], word: &str) -> (r: bool)
    ensures
        r == (name@ == word@),
{
    let letters = collect_chars(word);
    let same = piece_equals(name, 0, name.len(), letters.as_slice());
    assert(name@.subrange(0, name@.len() as int) =~= name@);
    same
}

/// Reads a category name. Only the four known names are categories.
pub fn parse_category(s: &str) -> (r: Result<PhosphorCategory, PhosphorError>)
    ensures
        match category_named(s@) {
            Some(category) => r == Ok::<PhosphorCategory, PhosphorError>(category),
            None => r == Err::<PhosphorCategory, PhosphorError>(PhosphorError::UnknownCategory),
        },
{
    let name = collect_chars(s);
    if spells(name.as_slice(), "general_purpose") {
        Ok(PhosphorCategory::GeneralPurpose)
    } else if spells(name.as_slice(), "short_decay") {
        Ok(PhosphorCategory::ShortDecay)
    } else if spells(name.as_slice(), "video_display") {
        Ok(PhosphorCategory::VideoDisplay)
    } else if spells(name.as_slice(), "long_decay_sulfide") {
        Ok(PhosphorCategory::LongDecaySulfide)
    } else {
        Err(PhosphorError::UnknownCategory)
    }
}

/// The source text that names a category, for generated tables.
pub fn format_category(cat: &PhosphorCategory) -> (s: &'static str)
    ensures
        s@ == match *cat {
            PhosphorCategory::GeneralPurpose => "phosphor::database::PhosphorCategory::GeneralPurpose"@,
            PhosphorCategory::ShortDecay => "phosphor::database::PhosphorCategory::ShortDecay"@,
            PhosphorCategory::VideoDisplay => "phosphor::database::PhosphorCategory::VideoDisplay"@,
            PhosphorCategory::LongDecaySulfide => "phosphor::database::PhosphorCategory::LongDecaySulfide"@,
        },
{
    match cat {
        PhosphorCategory::GeneralPurpose => "phosphor::database::PhosphorCategory::GeneralPurpose",
        PhosphorCategory::ShortDecay => "phosphor::database::PhosphorCategory::ShortDecay",
        PhosphorCategory::VideoDisplay => "phosphor::database::PhosphorCategory::VideoDisplay",
        PhosphorCategory::LongDecaySulfide => "phosphor::database::PhosphorCategory::LongDecaySulfide",
    }
}

/// One emission layer: how its light spreads over the bands, and how it
/// decays. The weights are meant to sum to one.
#[derive(Clone, Debug)]
pub struct PhosphorLayer {
    pub emission_weights: [Binary32; 16],
    pub decay_terms: Vec<DecayTerm>,
}

/// A [`PhosphorLayer`] as a mathematical value.
pub struct PhosphorLayerView {
    pub emission_weights: Seq<Binary32>,
    pub decay_terms: Seq<DecayTerm>,
}

impl View for PhosphorLayer {
    type V = PhosphorLayerView;

    open spec fn view(&self) -> PhosphorLayerView {
        PhosphorLayerView { emission_weights: self.emission_weights@, decay_terms: self.decay_terms@ }
    }
}

/// A phosphor type. A single-layer phosphor carries the same layer twice.
#[derive(Clone, Debug)]
pub struct PhosphorType {
    pub designation: String,
    pub description: String,
    pub category: PhosphorCategory,
    pub is_dual_layer: bool,
    pub fluorescence: PhosphorLayer,
    pub phosphorescence: PhosphorLayer,
    pub peak_wavelength_nm: Binary32,
    pub relative_luminance: Binary32,
    pub relative_writing_speed: Binary32,
}

/// One layer table of a database entry.
#[derive(Clone, Debug)]
pub struct LayerData {
    pub peak_nm: Binary32,
    pub fwhm_nm: Option<Binary32>,
    pub spectrum_csv: Option<String>,
    pub decay_terms: Vec<DecayTerm>,
}

/// One entry of a database file, as parsed.
#[derive(Clone, Debug)]
pub struct PhosphorData {
    pub description: String,
    pub category: String,
    pub dual_layer: bool,
    pub peak_nm: Binary32,
    pub fwhm_nm: Option<Binary32>,
    pub spectrum_csv: Option<String>,
    pub decay_terms: Vec<DecayTerm>,
    pub relative_luminance: Binary32,
    pub relative_writing_speed: Binary32,
    pub fluorescence: Option<LayerData>,
    pub phosphorescence: Option<LayerData>,
}

/// Where a layer's band weights come from.
#[derive(Clone, Debug)]
pub enum EmissionSource {
    /// A measured spectrum: the path of its table, relative to the database.
    SpectrumCsv(String),
    /// A Gaussian peak, sampled at the band centres and normalised.
    Gaussian { peak_nm: Binary32, fwhm_nm: Binary32 },
}

/// An [`EmissionSource`] as a mathematical value.
pub enum EmissionSourceView {
    SpectrumCsv(Seq<char>),
    Gaussian { peak_nm: Binary32, fwhm_nm: Binary32 },
}

impl View for EmissionSource {
    type V = EmissionSourceView;

    open spec fn view(&self) -> EmissionSourceView {
        match self {
            EmissionSource::SpectrumCsv(path) => EmissionSourceView::SpectrumCsv(path@),
            EmissionSource::Gaussian { peak_nm, fwhm_nm } => EmissionSourceView::Gaussian {
                peak_nm: *peak_nm,
                fwhm_nm: *fwhm_nm,
            },
        }
    }
}

/// The emission source that a layer's fields select: a spectrum table wins
/// over a peak width, and one of the two has to be there.
pub open spec fn emission_source_spec(
    peak_nm: Binary32,
    fwhm_nm: Option<Binary32>,
    spectrum_csv: Option<String>,
) -> Result<EmissionSourceView, PhosphorError> {
    match spectrum_csv {
        Some(path) => Ok(EmissionSourceView::SpectrumCsv(path@)),
        None => match fwhm_nm {
            Some(width) => Ok(EmissionSourceView::Gaussian { peak_nm, fwhm_nm: width }),
            None => Err(PhosphorError::MissingEmissionProfile),
        },
    }
}

/// Selects the emission source of a layer from its fields.
pub fn emission_source(peak_nm: Binary32, fwhm_nm: Option<Binary32>, spectrum_csv: &Option<String>) -> (r:
    Result<EmissionSource, PhosphorError>)
    ensures
        match emission_source_spec(peak_nm, fwhm_nm, *spectrum_csv) {
            Ok(source) => r matches Ok(found) && found@ == source,
            Err(error) => r matches Err(e) && e == error,
        },
{
    match spectrum_csv {
        Some(path) => Ok(EmissionSource::SpectrumCsv(path.clone())),
        None => match fwhm_nm {
            Some(width) => Ok(EmissionSource::Gaussian { peak_nm, fwhm_nm: width }),
            None => Err(PhosphorError::MissingEmissionProfile),
        },
    }
}

/// Where the weights of a phosphor's layers come from. A single-layer
/// phosphor has one source, which serves both layers.
#[derive(Clone, Debug)]
pub struct EmissionPlan {
    pub fluorescence: EmissionSource,
    pub phosphorescence: Option<EmissionSource>,
}

/// The first thing wrong with the layer tables of an entry, if anything.
pub open spec fn layer_error(data: PhosphorData) -> Option<PhosphorError> {
    if data.dual_layer {
        match (data.fluorescence, data.phosphorescence) {
            (None, _) => Some(PhosphorError::MissingFluorescence),
            (Some(_), None) => Some(PhosphorError::MissingPhosphorescence),
            (Some(fl), Some(ph)) => match emission_source_spec(fl.peak_nm, fl.fwhm_nm, fl.spectrum_csv) {
                Err(error) => Some(error),
                Ok(_) => match emission_source_spec(ph.peak_nm, ph.fwhm_nm, ph.spectrum_csv) {
                    Err(error) => Some(error),
                    Ok(_) => None,
                },
            },
        }
    } else {
        match emission_source_spec(data.peak_nm, data.fwhm_nm, data.spectrum_csv) {
            Err(error) => Some(error),
            Ok(_) => None,
        }
    }
}

/// Says where the band weights of an entry's layers come from.
///
/// A dual-layer entry needs both layer tables, and every layer in use
/// needs a spectrum table or a peak width. The first shortcoming, in that
/// order (fluorescence before phosphorescence), is the error.
pub fn plan_emission(data: &PhosphorData) -> (r: Result<EmissionPlan, PhosphorError>)
    ensures
        match layer_error(*data) {
            Some(error) => r matches Err(e) && e == error,
            None => r matches Ok(plan) && if data.dual_layer {
                &&& Ok::<EmissionSourceView, PhosphorError>(plan.fluorescence@) == emission_source_spec(
                    data.fluorescence->0.peak_nm,
                    data.fluorescence->0.fwhm_nm,
                    data.fluorescence->0.spectrum_csv,
                )
                &&& plan.phosphorescence matches Some(source) && Ok::<EmissionSourceView, PhosphorError>(
                    source@,
                ) == emission_source_spec(
                    data.phosphorescence->0.peak_nm,
                    data.phosphorescence->0.fwhm_nm,
                    data.phosphorescence->0.spectrum_csv,
                )
            } else {
                &&& Ok::<EmissionSourceView, PhosphorError>(plan.fluorescence@) == emission_source_spec(
                    data.peak_nm,
                    data.fwhm_nm,
                    data.spectrum_csv,
                )
                &&& plan.phosphorescence is None
            },
        },
{
    if data.dual_layer {
        match &data.fluorescence {
            None => Err(PhosphorError::MissingFluorescence),
            Some(fl) => match &data.phosphorescence {
                None => Err(PhosphorError::MissingPhosphorescence),
                Some(ph) => {
                    match emission_source(fl.peak_nm, fl.fwhm_nm, &fl.spectrum_csv) {
                        Err(error) => Err(error),
                        Ok(fluorescence) => match emission_source(
                            ph.peak_nm,
                            ph.fwhm_nm,
                            &ph.spectrum_csv,
                        ) {
                            Err(error) => Err(error),
                            Ok(phosphorescence) => Ok(
                                EmissionPlan { fluorescence, phosphorescence: Some(phosphorescence) },
                            ),
                        },
                    }
                },
            },
        }
    } else {
        match emission_source(data.peak_nm, data.fwhm_nm, &data.spectrum_csv) {
            Err(error) => Err(error),
            Ok(fluorescence) => Ok(EmissionPlan { fluorescence, phosphorescence: None }),
        }
    }
}

/// A copy of a list of decay terms.
pub fn copy_terms(terms: &Vec<DecayTerm>) -> (copy: Vec<DecayTerm>)
    ensures
        copy@ == terms@,
{
    let mut copy: Vec<DecayTerm> = Vec::new();
    let mut i: usize = 0;
    while i < terms.len()
        invariant
            i <= terms@.len(),
            copy@ == terms@.take(i as int),
        decreases terms@.len() - i,
    {
        copy.push(terms[i]);
        assert(terms@.take(i + 1) =~= terms@.take(i as int).push(terms@[i as int]));
        i += 1;
    }
    assert(terms@.take(terms@.len() as int) =~= terms@);
    copy
}

/// The decay terms of a layer of a dual-layer entry: its own, or the
/// entry's when it lists none.
pub open spec fn layer_terms(layer: LayerData, data: PhosphorData) -> Seq<DecayTerm> {
    if layer.decay_terms@.len() == 0 {
        data.decay_terms@
    } else {
        layer.decay_terms@
    }
}

/// The first thing wrong with an entry, if anything: a shortcoming of its
/// layer tables, or else an unknown category.
pub open spec fn entry_error(data: PhosphorData) -> Option<PhosphorError> {
    match layer_error(data) {
        Some(error) => Some(error),
        None => if category_named(data.category@) is None {
            Some(PhosphorError::UnknownCategory)
        } else {
            None
        },
    }
}

/// Assembles a phosphor from its database entry and the band weights that
/// the caller has resolved for its layers.
///
/// A dual-layer phosphor takes each layer's weights from the matching
/// argument, and each layer's decay terms from the layer's table, or from
/// the entry when the table lists none. A single-layer phosphor carries one
/// layer twice: `fluorescence_weights` with the entry's decay terms;
/// `phosphorescence_weights` is not looked at.
///
/// Fails exactly on the entries that [`entry_error`] describes.
pub fn build_phosphor(
    designation: &str,
    data: &PhosphorData,
    fluorescence_weights: [Binary32; 16],
    phosphorescence_weights: [Binary32; 16],
) -> (r: Result<PhosphorType, PhosphorError>)
    ensures
        match entry_error(*data) {
            Some(error) => r matches Err(e) && e == error,
            None => r matches Ok(p) && {
                &&& p.designation@ == designation@
                &&& p.description@ == data.description@
                &&& Some(p.category) == category_named(data.category@)
                &&& p.is_dual_layer == data.dual_layer
                &&& p.peak_wavelength_nm == data.peak_nm
                &&& p.relative_luminance == data.relative_luminance
                &&& p.relative_writing_speed == data.relative_writing_speed
                &&& p.fluorescence.emission_weights == fluorescence_weights
                &&& if data.dual_layer {
                    &&& p.fluorescence.decay_terms@ == layer_terms(data.fluorescence->0, *data)
                    &&& p.phosphorescence.emission_weights == phosphorescence_weights
                    &&& p.phosphorescence.decay_terms@ == layer_terms(data.phosphorescence->0, *data)
                } else {
                    &&& p.fluorescence.decay_terms@ == data.decay_terms@
                    &&& p.phosphorescence@ == p.fluorescence@
                }
            },
        },
{
    let plan = plan_emission(data);
    match plan {
        Err(error) => {
            return Err(error);
        },
        Ok(_) => {},
    }
    let category = match parse_category(data.category.as_str()) {
        Err(error) => {
            return Err(error);
        },
        Ok(category) => category,
    };
    let (fluorescence, phosphorescence) = if data.dual_layer {
        let fl = match &data.fluorescence {
            Some(fl) => fl,
            None => {
                return Err(PhosphorError::MissingFluorescence);
            },
        };
        let ph = match &data.phosphorescence {
            Some(ph) => ph,
            None => {
                return Err(PhosphorError::MissingPhosphorescence);
            },
        };
        let fl_terms = if fl.decay_terms.len() == 0 {
            copy_terms(&data.decay_terms)
        } else {
            copy_terms(&fl.decay_terms)
        };
        let ph_terms = if ph.decay_terms.len() == 0 {
            copy_terms(&data.decay_terms)
        } else {
            copy_terms(&ph.decay_terms)
        };
        (
            PhosphorLayer { emission_weights: fluorescence_weights, decay_terms: fl_terms },
            PhosphorLayer { emission_weights: phosphorescence_weights, decay_terms: ph_terms },
        )
    } else {
        (
            PhosphorLayer {
                emission_weights: fluorescence_weights,
                decay_terms: copy_terms(&data.decay_terms),
            },
            PhosphorLayer {
                emission_weights: fluorescence_weights,
                decay_terms: copy_terms(&data.decay_terms),
            },
        )
    };
    Ok(
        PhosphorType {
            designation: designation.to_owned(),
            description: data.description.clone(),
            category,
            is_dual_layer: data.dual_layer,
            fluorescence,
            phosphorescence,
            peak_wavelength_nm: data.peak_nm,
            relative_luminance: data.relative_luminance,
            relative_writing_speed: data.relative_writing_speed,
        },
    )
}

} // verus!
