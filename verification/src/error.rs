//! Errors that can stop the slicing process.
use vstd::prelude::*;

verus! {

/// Errors that can be generated during the slicing process.
///
/// Numbers that the slicer handles as floating point are carried here by
/// their IEEE-754 bit pattern (`f64::to_bits`), so that the value can be
/// recovered exactly for a message.
#[derive(Clone, Debug, PartialEq)]
pub enum SlicerErrors {
    /// The file for the object/model can not be found in the file system
    ObjectFileNotFound { filepath: String },
    /// The file for the settings can not be found in the file system
    SettingsFileNotFound { filepath: String },
    /// The settings file can't be parsed
    SettingsFileMisformat { filepath: String },
    /// A setting is missing from the settings file
    SettingsFileMissingSettings { missing_setting: String },
    /// Error loading the STL
    StlLoadError,
    /// Error loading the 3MF file
    ThreemfLoadError,
    /// Error loading the 3MF file, usually a compatibility error
    ThreemfUnsupportedType,
    /// Error during tower generation
    TowerGeneration,
    /// No input models provided
    NoInputProvided,
    /// All input must be UTF8
    InputNotUTF8,
    /// Input string is misformatted
    InputMisformat,
    /// Model would cause moves outside build area
    ModelOutsideBuildArea,
    /// Generated move outside build area
    MovesOutsideBuildArea,
    /// A settings file named by another could not be loaded
    SettingsRecursiveLoadError { filepath: String },
    /// Error while ordering the polygons of a slice
    SliceGeneration,
    /// File permission issue with the settings file or folder
    SettingsFilePermission,
    /// Failed to create a new file
    FileCreateError { filepath: String },
    /// Failed to write to a file
    FileWriteError { filepath: String },
    /// A setting is less than zero
    SettingLessThanZero { setting: String, value_bits: u64 },
    /// A setting is less than or equal to zero
    SettingLessThanOrEqualToZero { setting: String, value_bits: u64 },
    /// The file format is not supported
    FileFormatNotSupported { filepath: String },
    /// A G-code instruction template could not be expanded
    SettingMacroParseError { sub_error: String },
    /// Another error, here for plugins to use
    UnspecifiedError(String),
    /// A model lies in a reserved area of the bed; holds a description of the area
    InExcludeArea(String),
}

impl SlicerErrors {
    /// The error code reported for this error.
    pub fn get_code(&self) -> (code: u32)
        ensures
            code == error_code(*self),
    {
        match self {
            SlicerErrors::UnspecifiedError(..) => 0xFFFF_FFFF,
            SlicerErrors::ObjectFileNotFound { .. } => 0x1000,
            SlicerErrors::SettingsFileNotFound { .. } => 0x1001,
            SlicerErrors::StlLoadError => 0x1002,
            SlicerErrors::ThreemfLoadError => 0x1003,
            SlicerErrors::ThreemfUnsupportedType => 0x1004,
            SlicerErrors::SettingsFileMisformat { .. } => 0x1005,
            SlicerErrors::SettingsFileMissingSettings { .. } => 0x1006,
            SlicerErrors::TowerGeneration => 0x1007,
            SlicerErrors::NoInputProvided => 0x1008,
            SlicerErrors::InputMisformat => 0x1009,
            SlicerErrors::SettingsRecursiveLoadError { .. } => 0x100A,
            SlicerErrors::SliceGeneration => 0x100B,
            SlicerErrors::SettingLessThanZero { .. } => 0x100C,
            SlicerErrors::SettingLessThanOrEqualToZero { .. } => 0x100D,
            SlicerErrors::InputNotUTF8 => 0x100E,
            SlicerErrors::SettingsFilePermission => 0x100F,
            SlicerErrors::FileCreateError { .. } => 0x1010,
            SlicerErrors::FileWriteError { .. } => 0x1011,
            SlicerErrors::FileFormatNotSupported { .. } => 0x1012,
            SlicerErrors::ModelOutsideBuildArea => 0x1013,
            SlicerErrors::MovesOutsideBuildArea => 0x1014,
            SlicerErrors::InExcludeArea(..) => 0x1015,
            SlicerErrors::SettingMacroParseError { .. } => 0x1016,
        }
    }

    /// A copy of this error, equal to it.
    pub fn duplicate(&self) -> (e: SlicerErrors)
        ensures
            e == *self,
    {
        match self {
            SlicerErrors::UnspecifiedError(s) => SlicerErrors::UnspecifiedError(s.clone()),
            SlicerErrors::ObjectFileNotFound { filepath } => SlicerErrors::ObjectFileNotFound { filepath: filepath.clone() },
            SlicerErrors::SettingsFileNotFound { filepath } => SlicerErrors::SettingsFileNotFound { filepath: filepath.clone() },
            SlicerErrors::StlLoadError => SlicerErrors::StlLoadError,
            SlicerErrors::ThreemfLoadError => SlicerErrors::ThreemfLoadError,
            SlicerErrors::ThreemfUnsupportedType => SlicerErrors::ThreemfUnsupportedType,
            SlicerErrors::SettingsFileMisformat { filepath } => SlicerErrors::SettingsFileMisformat { filepath: filepath.clone() },
            SlicerErrors::SettingsFileMissingSettings { missing_setting } => SlicerErrors::SettingsFileMissingSettings { missing_setting: missing_setting.clone() },
            SlicerErrors::TowerGeneration => SlicerErrors::TowerGeneration,
            SlicerErrors::NoInputProvided => SlicerErrors::NoInputProvided,
            SlicerErrors::InputMisformat => SlicerErrors::InputMisformat,
            SlicerErrors::SettingsRecursiveLoadError { filepath } => SlicerErrors::SettingsRecursiveLoadError { filepath: filepath.clone() },
            SlicerErrors::SliceGeneration => SlicerErrors::SliceGeneration,
            SlicerErrors::SettingLessThanZero { setting, value_bits } => SlicerErrors::SettingLessThanZero { setting: setting.clone(), value_bits: *value_bits },
            SlicerErrors::SettingLessThanOrEqualToZero { setting, value_bits } => SlicerErrors::SettingLessThanOrEqualToZero { setting: setting.clone(), value_bits: *value_bits },
            SlicerErrors::InputNotUTF8 => SlicerErrors::InputNotUTF8,
            SlicerErrors::SettingsFilePermission => SlicerErrors::SettingsFilePermission,
            SlicerErrors::FileCreateError { filepath } => SlicerErrors::FileCreateError { filepath: filepath.clone() },
            SlicerErrors::FileWriteError { filepath } => SlicerErrors::FileWriteError { filepath: filepath.clone() },
            SlicerErrors::FileFormatNotSupported { filepath } => SlicerErrors::FileFormatNotSupported { filepath: filepath.clone() },
            SlicerErrors::ModelOutsideBuildArea => SlicerErrors::ModelOutsideBuildArea,
            SlicerErrors::MovesOutsideBuildArea => SlicerErrors::MovesOutsideBuildArea,
            SlicerErrors::InExcludeArea(s) => SlicerErrors::InExcludeArea(s.clone()),
            SlicerErrors::SettingMacroParseError { sub_error } => SlicerErrors::SettingMacroParseError { sub_error: sub_error.clone() },
        }
    }
}

/// The code of each kind of error.
pub open spec fn error_code(e: SlicerErrors) -> u32 {
    match e {
        SlicerErrors::UnspecifiedError(..) => 0xFFFF_FFFF,
        SlicerErrors::ObjectFileNotFound { .. } => 0x1000,
        SlicerErrors::SettingsFileNotFound { .. } => 0x1001,
        SlicerErrors::StlLoadError => 0x1002,
        SlicerErrors::ThreemfLoadError => 0x1003,
        SlicerErrors::ThreemfUnsupportedType => 0x1004,
        SlicerErrors::SettingsFileMisformat { .. } => 0x1005,
        SlicerErrors::SettingsFileMissingSettings { .. } => 0x1006,
        SlicerErrors::TowerGeneration => 0x1007,
        SlicerErrors::NoInputProvided => 0x1008,
        SlicerErrors::InputMisformat => 0x1009,
        SlicerErrors::SettingsRecursiveLoadError { .. } => 0x100A,
        SlicerErrors::SliceGeneration => 0x100B,
        SlicerErrors::SettingLessThanZero { .. } => 0x100C,
        SlicerErrors::SettingLessThanOrEqualToZero { .. } => 0x100D,
        SlicerErrors::InputNotUTF8 => 0x100E,
        SlicerErrors::SettingsFilePermission => 0x100F,
        SlicerErrors::FileCreateError { .. } => 0x1010,
        SlicerErrors::FileWriteError { .. } => 0x1011,
        SlicerErrors::FileFormatNotSupported { .. } => 0x1012,
        SlicerErrors::ModelOutsideBuildArea => 0x1013,
        SlicerErrors::MovesOutsideBuildArea => 0x1014,
        SlicerErrors::InExcludeArea(..) => 0x1015,
        SlicerErrors::SettingMacroParseError { .. } => 0x1016,
    }
}

/// Warnings that can be generated during the slicing process. Numbers are
/// carried by their bit patterns.
#[derive(Clone, Copy, Debug, PartialEq, Eq, Structural)]
pub enum SlicerWarnings {
    /// Layer size too low for the nozzle size
    LayerSizeTooLow { nozzle_diameter: u64, layer_height: u64 },
    /// Layer size too high for the nozzle size
    LayerSizeTooHigh { nozzle_diameter: u64, layer_height: u64 },
    /// The acceleration is too low
    AccelerationTooLow { acceleration: u64, speed: u64, bed_size: u64 },
    /// Temperature too high
    NozzleTemperatureTooHigh { temp: u64 },
    /// Temperature too low
    NozzleTemperatureTooLow { temp: u64 },
    /// The skirt and brim overlap
    SkirtAndBrimOverlap { skirt_distance: u64, brim_width: u64 },
    /// Extrusion width too high for the nozzle size
    ExtrusionWidthTooHigh { nozzle_diameter: u64, extrusion_width: u64 },
    /// Extrusion width too low for the nozzle size
    ExtrusionWidthTooLow { nozzle_diameter: u64, extrusion_width: u64 },
}

/// The code of each kind of warning.
pub open spec fn warning_code(w: SlicerWarnings) -> u32 {
    match w {
        SlicerWarnings::LayerSizeTooLow { .. } => 0x1000,
        SlicerWarnings::LayerSizeTooHigh { .. } => 0x1001,
        SlicerWarnings::AccelerationTooLow { .. } => 0x1002,
        SlicerWarnings::SkirtAndBrimOverlap { .. } => 0x1003,
        SlicerWarnings::NozzleTemperatureTooHigh { .. } => 0x1004,
        SlicerWarnings::NozzleTemperatureTooLow { .. } => 0x1005,
        SlicerWarnings::ExtrusionWidthTooHigh { .. } => 0x1006,
        SlicerWarnings::ExtrusionWidthTooLow { .. } => 0x1007,
    }
}

impl SlicerWarnings {
    /// The code reported for this warning.
    pub fn get_code(&self) -> (code: u32)
        ensures
            code == warning_code(*self),
    {
        match self {
            SlicerWarnings::LayerSizeTooLow { .. } => 0x1000,
            SlicerWarnings::LayerSizeTooHigh { .. } => 0x1001,
            SlicerWarnings::AccelerationTooLow { .. } => 0x1002,
            SlicerWarnings::SkirtAndBrimOverlap { .. } => 0x1003,
            SlicerWarnings::NozzleTemperatureTooHigh { .. } => 0x1004,
            SlicerWarnings::NozzleTemperatureTooLow { .. } => 0x1005,
            SlicerWarnings::ExtrusionWidthTooHigh { .. } => 0x1006,
            SlicerWarnings::ExtrusionWidthTooLow { .. } => 0x1007,
        }
    }
}


/// Whether two errors are of the same kind.
pub open spec fn same_error_kind(a: SlicerErrors, b: SlicerErrors) -> bool {
    ||| a is ObjectFileNotFound && b is ObjectFileNotFound
    ||| a is SettingsFileNotFound && b is SettingsFileNotFound
    ||| a is SettingsFileMisformat && b is SettingsFileMisformat
    ||| a is SettingsFileMissingSettings && b is SettingsFileMissingSettings
    ||| a is StlLoadError && b is StlLoadError
    ||| a is ThreemfLoadError && b is ThreemfLoadError
    ||| a is ThreemfUnsupportedType && b is ThreemfUnsupportedType
    ||| a is TowerGeneration && b is TowerGeneration
    ||| a is NoInputProvided && b is NoInputProvided
    ||| a is InputNotUTF8 && b is InputNotUTF8
    ||| a is InputMisformat && b is InputMisformat
    ||| a is ModelOutsideBuildArea && b is ModelOutsideBuildArea
    ||| a is MovesOutsideBuildArea && b is MovesOutsideBuildArea
    ||| a is SettingsRecursiveLoadError && b is SettingsRecursiveLoadError
    ||| a is SliceGeneration && b is SliceGeneration
    ||| a is SettingsFilePermission && b is SettingsFilePermission
    ||| a is FileCreateError && b is FileCreateError
    ||| a is FileWriteError && b is FileWriteError
    ||| a is SettingLessThanZero && b is SettingLessThanZero
    ||| a is SettingLessThanOrEqualToZero && b is SettingLessThanOrEqualToZero
    ||| a is FileFormatNotSupported && b is FileFormatNotSupported
    ||| a is SettingMacroParseError && b is SettingMacroParseError
    ||| a is UnspecifiedError && b is UnspecifiedError
    ||| a is InExcludeArea && b is InExcludeArea
}

/// Every kind of error has its own code: two errors have the same code
/// exactly when they are of the same kind.
pub proof fn lemma_error_codes_tell_kinds_apart(a: SlicerErrors, b: SlicerErrors)
    ensures
        error_code(a) == error_code(b) <==> same_error_kind(a, b),
{
}

/// Whether two warnings are of the same kind.
pub open spec fn same_warning_kind(a: SlicerWarnings, b: SlicerWarnings) -> bool {
    ||| a is LayerSizeTooLow && b is LayerSizeTooLow
    ||| a is LayerSizeTooHigh && b is LayerSizeTooHigh
    ||| a is AccelerationTooLow && b is AccelerationTooLow
    ||| a is NozzleTemperatureTooHigh && b is NozzleTemperatureTooHigh
    ||| a is NozzleTemperatureTooLow && b is NozzleTemperatureTooLow
    ||| a is SkirtAndBrimOverlap && b is SkirtAndBrimOverlap
    ||| a is ExtrusionWidthTooHigh && b is ExtrusionWidthTooHigh
    ||| a is ExtrusionWidthTooLow && b is ExtrusionWidthTooLow
}

/// Every kind of warning has its own code: two warnings have the same code
/// exactly when they are of the same kind.
pub proof fn lemma_warning_codes_tell_kinds_apart(a: SlicerWarnings, b: SlicerWarnings)
    ensures
        warning_code(a) == warning_code(b) <==> same_warning_kind(a, b),
{
}

} // verus!
