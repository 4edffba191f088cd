//! Loaded soundfonts as the synthesizer sees them: preset listings and the
//! choice of loader by file extension.

use vstd::prelude::*;

use crate::text::is_word;
use crate::types::{AudioStreamParams, PresetRegions, SoundFont};

verus! {

/// Minimal preset info for display.
#[derive(Debug)]
pub struct PresetInfo {
    pub name: String,
    pub bank: u16,
    pub program: u16,
    pub source_file: String,
}

impl PresetInfo {
    /// A copy with the same fields.
    pub fn duplicate(&self) -> (r: PresetInfo)
        ensures
            r.name@ == self.name@,
            r.bank == self.bank,
            r.program == self.program,
            r.source_file@ == self.source_file@,
    {
        PresetInfo {
            name: self.name.clone(),
            bank: self.bank,
            program: self.program,
            source_file: self.source_file.clone(),
        }
    }
}

/// Errors from loading a soundfont via [`SampleSoundfont`].
#[derive(Debug)]
pub enum LoadError {
    Io(std::io::Error),
    Parse(String),
    UnsupportedFormat,
}

/// Whether `info` lists preset `p` of the soundfont read from `source`.
pub open spec fn lists_preset<P>(info: PresetInfo, p: PresetRegions<P>, source: Seq<char>) -> bool {
    &&& info.name@ == p.name@
    &&& info.bank == p.bank
    &&& info.program == p.program
    &&& info.source_file@ == source
}

/// Whether `infos` lists the presets in order, each with `source`.
pub open spec fn lists_presets<P>(infos: Seq<PresetInfo>, presets: Seq<PresetRegions<P>>, source: Seq<char>) -> bool {
    &&& infos.len() == presets.len()
    &&& forall|k: int| 0 <= k < infos.len() ==> lists_preset(#[trigger] infos[k], presets[k], source)
}

/// A soundfont with its stream parameters, source name and preset listing.
pub struct SoundFontWrapper<P, B> {
    inner: SoundFont<P, B>,
    stream_params: AudioStreamParams,
    source_name: String,
    preset_cache: Vec<PresetInfo>,
}

impl<P, B> SoundFontWrapper<P, B> {
    pub closed spec fn inner_spec(&self) -> SoundFont<P, B> {
        self.inner
    }

    pub closed spec fn stream_params_spec(&self) -> AudioStreamParams {
        self.stream_params
    }

    pub closed spec fn source_spec(&self) -> Seq<char> {
        self.source_name@
    }

    pub closed spec fn listing_spec(&self) -> Seq<PresetInfo> {
        self.preset_cache@
    }

    /// Wraps a soundfont; its presets are listed once, in order, each with
    /// `source_name` as source file.
    pub fn new(soundfont: SoundFont<P, B>, stream_params: AudioStreamParams, source_name: String) -> (r: Self)
        ensures
            r.inner_spec() == soundfont,
            r.stream_params_spec() == stream_params,
            r.source_spec() == source_name@,
            lists_presets(r.listing_spec(), soundfont.presets@, source_name@),
    {
        let mut cache: Vec<PresetInfo> = Vec::new();
        let mut i: usize = 0;
        while i < soundfont.presets.len()
            invariant
                i <= soundfont.presets@.len(),
                cache@.len() == i,
                forall|k: int|
                    0 <= k < i ==> lists_preset(#[trigger] cache@[k], soundfont.presets@[k], source_name@),
            decreases soundfont.presets@.len() - i,
        {
            let p = &soundfont.presets[i];
            cache.push(
                PresetInfo {
                    name: p.name.clone(),
                    bank: p.bank,
                    program: p.program,
                    source_file: source_name.clone(),
                },
            );
            i = i + 1;
        }
        SoundFontWrapper { inner: soundfont, stream_params, source_name, preset_cache: cache }
    }

    /// The output stream parameters.
    pub fn stream_params(&self) -> (r: AudioStreamParams)
        ensures
            r == self.stream_params_spec(),
    {
        self.stream_params
    }

    /// The wrapped soundfont.
    pub fn soundfont(&self) -> (r: &SoundFont<P, B>)
        ensures
            *r == self.inner_spec(),
    {
        &self.inner
    }

    /// The name of the soundfont's source.
    pub fn source_name(&self) -> (r: &String)
        ensures
            r@ == self.source_spec(),
    {
        &self.source_name
    }

    /// The preset listing.
    pub fn presets(&self) -> (r: Vec<PresetInfo>)
        ensures
            r@.len() == self.listing_spec().len(),
            forall|k: int|
                0 <= k < r@.len() ==> {
                    let a = #[trigger] r@[k];
                    let b = self.listing_spec()[k];
                    a.name@ == b.name@ && a.bank == b.bank && a.program == b.program
                        && a.source_file@ == b.source_file@
                },
    {
        let mut out: Vec<PresetInfo> = Vec::new();
        let mut i: usize = 0;
        while i < self.preset_cache.len()
            invariant
                i <= self.preset_cache@.len(),
                out@.len() == i,
                forall|k: int|
                    0 <= k < i ==> {
                        let a = #[trigger] out@[k];
                        let b = self.preset_cache@[k];
                        a.name@ == b.name@ && a.bank == b.bank && a.program == b.program
                            && a.source_file@ == b.source_file@
                    },
            decreases self.preset_cache@.len() - i,
        {
            out.push(self.preset_cache[i].duplicate());
            i = i + 1;
        }
        out
    }
}

/// Soundfont file formats.
#[derive(Debug, Clone, Copy, PartialEq, Eq, Structural)]
pub enum SoundfontFormat {
    Sf2,
    Sfz,
}

/// The extension of the file a path names, as `Path::extension` gives it
/// (the text after the last `.` of the file name, none for names without
/// one or starting with the only one).
pub uninterp spec fn file_extension(path: Seq<char>) -> Option<Seq<char>>;

/// Calls `Path::extension` on `path`, keeping the extension when it is
/// valid Unicode. The result depends on the path text alone.
#[verifier::external_body]
fn path_extension(path: &str) -> (r: Option<String>)
    ensures
        match r {
            Some(e) => file_extension(path@) == Some(e@),
            None => file_extension(path@) is None,
        },
{
    std::path::Path::new(path).extension().and_then(|e| e.to_str()).map(|e| e.to_string())
}

/// The format a file extension names: `sf2`/`SF2` or `sfz`/`SFZ`.
pub open spec fn format_of(ext: Option<Seq<char>>) -> Option<SoundfontFormat> {
    match ext {
        Some(e) => if e == "sf2"@ || e == "SF2"@ {
            Some(SoundfontFormat::Sf2)
        } else if e == "sfz"@ || e == "SFZ"@ {
            Some(SoundfontFormat::Sfz)
        } else {
            None
        },
        None => None,
    }
}

/// The soundfont format of a file path, by its extension.
pub fn format_of_path(path: &str) -> (r: Option<SoundfontFormat>)
    ensures
        r == format_of(file_extension(path@)),
{
    match path_extension(path) {
        Some(e) => {
            if is_word(&e, "sf2") || is_word(&e, "SF2") {
                Some(SoundfontFormat::Sf2)
            } else if is_word(&e, "sfz") || is_word(&e, "SFZ") {
                Some(SoundfontFormat::Sfz)
            } else {
                None
            }
        },
        None => None,
    }
}

/// A soundfont loaded from a file.
pub struct SampleSoundfont<P, B> {
    wrapper: SoundFontWrapper<P, B>,
}

/// Whether `r` is what loading gives when the loader returned `res` for a
/// file named `path`.
pub open spec fn loaded_as<P, B>(
    res: Result<SoundFont<P, B>, String>,
    r: Result<SampleSoundfont<P, B>, LoadError>,
    stream_params: AudioStreamParams,
    path: Seq<char>,
) -> bool {
    match res {
        Ok(sf) => r is Ok && ({
            let w = r->Ok_0.wrapper_spec();
            &&& w.inner_spec() == sf
            &&& w.stream_params_spec() == stream_params
            &&& w.source_spec() == path
            &&& lists_presets(w.listing_spec(), sf.presets@, path)
        }),
        Err(e) => r matches Err(LoadError::Parse(m)) && m@ == e@,
    }
}

impl<P, B> SampleSoundfont<P, B> {
    pub closed spec fn wrapper_spec(&self) -> SoundFontWrapper<P, B> {
        self.wrapper
    }

    /// Loads the soundfont at `path`: the extension chooses the format
    /// (`sf2`/`SF2` or `sfz`/`SFZ`, else the format is unsupported), `load`
    /// reads the file in that format at the stream's sample rate, and a
    /// loader error message becomes a parse error.
    pub fn new<F>(path: &str, stream_params: AudioStreamParams, load: F) -> (r: Result<Self, LoadError>)
        where
            F: FnOnce(SoundfontFormat, u32) -> Result<SoundFont<P, B>, String>,
        requires
            forall|f: SoundfontFormat| call_requires(load, (f, stream_params.sample_rate)),
        ensures
            match format_of(file_extension(path@)) {
                None => r matches Err(LoadError::UnsupportedFormat),
                Some(f) => exists|res: Result<SoundFont<P, B>, String>|
                    call_ensures(load, (f, stream_params.sample_rate), res) && loaded_as(
                        res,
                        r,
                        stream_params,
                        path@,
                    ),
            },
    {
        let name = path.to_owned();
        let format = match format_of_path(path) {
            Some(f) => f,
            None => return Err(LoadError::UnsupportedFormat),
        };
        let res = load(format, stream_params.sample_rate);
        let ghost res_g = res;
        match res {
            Ok(sf) => {
                let wrapper = SoundFontWrapper::new(sf, stream_params, name);
                let r = Ok(SampleSoundfont { wrapper });
                assert(loaded_as(res_g, r, stream_params, path@));
                r
            },
            Err(e) => {
                let r = Err(LoadError::Parse(e));
                assert(loaded_as(res_g, r, stream_params, path@));
                r
            },
        }
    }

    /// The wrapped soundfont with its listing.
    pub fn wrapper(&self) -> (r: &SoundFontWrapper<P, B>)
        ensures
            *r == self.wrapper_spec(),
    {
        &self.wrapper
    }
}

/// The soundfont of an SFZ file: one preset (bank 0, program 0) named
/// "SFZ Preset" holding all regions.
pub fn single_preset_soundfont<P, B>(regions: Vec<crate::types::Region<P>>, sample_buffers: Vec<B>) -> (r: SoundFont<P, B>)
    ensures
        r.presets@.len() == 1,
        r.presets@[0].bank == 0,
        r.presets@[0].program == 0,
        r.presets@[0].name@ == "SFZ Preset"@,
        r.presets@[0].regions == regions,
        r.sample_buffers == sample_buffers,
{
    let mut presets: Vec<PresetRegions<P>> = Vec::new();
    presets.push(PresetRegions { bank: 0, program: 0, name: "SFZ Preset".to_owned(), regions });
    SoundFont { presets, sample_buffers }
}

} // verus!
