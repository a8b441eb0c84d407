//! The pipeline's configuration: per-family output paths, image directories
//! and encode qualities, and the shared minimum-dimension bound. The encode
//! quality is bounded between one and one hundred.

use crate::errors::PipelineError;
use crate::text::decimal;
use crate::text::spec_decimal;
use vstd::prelude::*;

verus! {

/// An encode quality is valid between one and one hundred.
pub open spec fn quality_ok(q: u8) -> bool {
    1 <= q <= 100
}

/// Validates an encode quality, naming the rejected value.
pub fn check_quality(q: u8) -> (r: Result<u8, PipelineError>)
    ensures
        match r {
            Ok(v) => v == q && quality_ok(q),
            Err(e) => !quality_ok(q) && (e matches PipelineError::Decode(m) && m@ == spec_decimal(
                q as nat,
            )),
        },
{
    if 1 <= q && q <= 100 {
        Ok(q)
    } else {
        Err(PipelineError::Decode(decimal(q as u64)))
    }
}

/// Where one record family's data and images go, and its encode quality.
pub struct SaveConfig {
    /// The path the family's JSON table is written to.
    pub data_path: String,
    /// The directory the family's images are materialized in.
    pub image_dir: String,
    /// The encode quality, between one and one hundred.
    pub quality: u8,
}

impl SaveConfig {
    pub open spec fn wf(&self) -> bool {
        quality_ok(self.quality)
    }

    /// Builds a family's save configuration, validating the quality.
    pub fn new(data_path: String, image_dir: String, quality: u8) -> (r: Result<
        SaveConfig,
        PipelineError,
    >)
        ensures
            match r {
                Ok(c) => c.data_path@ == data_path@ && c.image_dir@ == image_dir@ && c.quality
                    == quality && c.wf(),
                Err(e) => !quality_ok(quality) && (e matches PipelineError::Decode(m) && m@
                    == spec_decimal(quality as nat)),
            },
    {
        let quality = check_quality(quality)?;
        Ok(SaveConfig { data_path, image_dir, quality })
    }
}

/// A fixed listing of image ids to materialize, with their directory and
/// encode quality.
pub struct ImageConfig {
    /// The ids to materialize.
    pub whitelist: Vec<String>,
    /// The directory the images are materialized in.
    pub image_dir: String,
    /// The encode quality, between one and one hundred.
    pub quality: u8,
}

impl ImageConfig {
    pub open spec fn wf(&self) -> bool {
        quality_ok(self.quality)
    }

    /// Builds an image-listing configuration, validating the quality.
    pub fn new(whitelist: Vec<String>, image_dir: String, quality: u8) -> (r: Result<
        ImageConfig,
        PipelineError,
    >)
        ensures
            match r {
                Ok(c) => c.whitelist@ == whitelist@ && c.image_dir@ == image_dir@ && c.quality
                    == quality && c.wf(),
                Err(e) => !quality_ok(quality) && (e matches PipelineError::Decode(m) && m@
                    == spec_decimal(quality as nat)),
            },
    {
        let quality = check_quality(quality)?;
        Ok(ImageConfig { whitelist, image_dir, quality })
    }

    /// The ids this listing materializes.
    pub fn image_ids(&self) -> (r: &Vec<String>)
        ensures
            r@ == self.whitelist@,
    {
        &self.whitelist
    }
}

/// The whole pipeline configuration.
pub struct Config {
    /// The operator family's outputs.
    pub operator: SaveConfig,
    /// The skill family's outputs.
    pub skill: SaveConfig,
    /// The facility family's outputs.
    pub facility: SaveConfig,
    /// The fixed item-image listing.
    pub item: ImageConfig,
    /// The path the term table is written to.
    pub terms_path: String,
    /// The path the style table is written to.
    pub styles_path: String,
    /// The minimum-dimension bound shared across families.
    pub min_image_size: u32,
}

impl Config {
    pub open spec fn wf(&self) -> bool {
        &&& self.operator.wf()
        &&& self.skill.wf()
        &&& self.facility.wf()
        &&& self.item.wf()
    }
}

} // verus!
