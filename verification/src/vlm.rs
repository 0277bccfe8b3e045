//! Vision-language model adapters: the configuration of a command adapter, which must
//! name a program and a stable model identity.
use vstd::prelude::*;
use crate::event::Provenance;
use crate::text::{chars_of, decimal, push_decimal, push_str, str_equal, trim, trim_chars};

verus! {

broadcast use vstd::string::group_string_axioms;

/// An adapter program spoken to over JSON on standard input and output.
#[derive(Clone, Debug)]
pub struct CommandVlmConfig {
    pub program: String,
    pub args: Vec<String>,
    pub model: String,
    pub model_version: String,
}

/// Why an adapter configuration was refused.
#[derive(Clone, Copy, Debug, PartialEq, Eq, Structural)]
pub enum VlmConfigError {
    EmptyProgram,
    EmptyModel,
    EmptyModelVersion,
}

impl VlmConfigError {
    /// The human-readable description of the error.
    pub open spec fn text(&self) -> Seq<char> {
        match *self {
            VlmConfigError::EmptyProgram => "VLM adapter program must not be empty"@,
            VlmConfigError::EmptyModel => "VLM model must not be empty"@,
            VlmConfigError::EmptyModelVersion => "VLM model version must not be empty"@,
        }
    }

    /// Renders the description of the error.
    pub fn message(&self) -> (r: String)
        ensures
            r@ == self.text(),
    {
        let mut s = String::new();
        match *self {
            VlmConfigError::EmptyProgram => push_str(&mut s, "VLM adapter program must not be empty"),
            VlmConfigError::EmptyModel => push_str(&mut s, "VLM model must not be empty"),
            VlmConfigError::EmptyModelVersion => push_str(&mut s, "VLM model version must not be empty"),
        }
        s
    }
}

/// The first problem of a configuration: an empty program, then a blank model, then a
/// blank model version.
pub open spec fn vlm_config_error(c: CommandVlmConfig) -> Option<VlmConfigError> {
    if c.program@.len() == 0 {
        Some(VlmConfigError::EmptyProgram)
    } else if trim(c.model@).len() == 0 {
        Some(VlmConfigError::EmptyModel)
    } else if trim(c.model_version@).len() == 0 {
        Some(VlmConfigError::EmptyModelVersion)
    } else {
        None
    }
}

fn is_blank(s: &str) -> (r: bool)
    ensures
        r == (trim(s@).len() == 0),
{
    let c = chars_of(s);
    trim_chars(c.as_slice()).len() == 0
}

impl CommandVlmConfig {
    /// Accepts a configuration with a program, a model and a model version.
    pub fn validate(&self) -> (r: Result<(), VlmConfigError>)
        ensures
            match vlm_config_error(*self) {
                Some(e) => r == Err::<(), VlmConfigError>(e),
                None => r is Ok,
            },
    {
        if self.program.as_str().unicode_len() == 0 {
            return Err(VlmConfigError::EmptyProgram);
        }
        if is_blank(self.model.as_str()) {
            return Err(VlmConfigError::EmptyModel);
        }
        if is_blank(self.model_version.as_str()) {
            return Err(VlmConfigError::EmptyModelVersion);
        }
        Ok(())
    }
}

/// An adapter that runs a configured program for each request.
pub struct CommandVlmAdapter {
    config: CommandVlmConfig,
}

impl CommandVlmAdapter {
    pub closed spec fn config_view(&self) -> CommandVlmConfig {
        self.config
    }

    /// An adapter for a configuration that validates.
    pub fn new(config: CommandVlmConfig) -> (r: Result<Self, VlmConfigError>)
        ensures
            match vlm_config_error(config) {
                Some(e) => r matches Err(x) && x == e,
                None => r matches Ok(a) && a.config_view() == config,
            },
    {
        config.validate()?;
        Ok(CommandVlmAdapter { config })
    }

    /// The configuration the adapter runs.
    pub fn config(&self) -> (r: &CommandVlmConfig)
        ensures
            *r == self.config_view(),
    {
        &self.config
    }

    /// The model the adapter reports.
    pub fn model(&self) -> (r: &str)
        ensures
            r@ == self.config_view().model@,
    {
        self.config.model.as_str()
    }

    /// The model version the adapter reports.
    pub fn model_version(&self) -> (r: &str)
        ensures
            r@ == self.config_view().model_version@,
    {
        self.config.model_version.as_str()
    }
}

/// A temporal observation as trigger selection reads it: its kind, its interval, and its
/// `delayed` flag when it has one.
#[derive(Clone, Debug)]
pub struct TriggerCandidate {
    pub kind: String,
    pub start_ns: u64,
    pub end_ns: u64,
    pub delayed: Option<bool>,
}

/// Why a model observation cannot be made.
#[derive(Clone, Debug, PartialEq, Eq)]
pub enum TriggerError {
    NotTemporalAnalysis,
    NotDerived,
    EmptyPrompt,
    /// The requested observation index is past the end.
    IndexOutOfRange(usize),
    NoneWorthy,
    /// The selected observation, of this kind, does not warrant a model call.
    NotWorthy(String),
}

impl TriggerError {
    /// The human-readable description of the error.
    pub open spec fn text(&self) -> Seq<char> {
        match self {
            TriggerError::NotTemporalAnalysis => "VLM trigger must be a temporal analysis event"@,
            TriggerError::NotDerived => "VLM trigger must retain derived provenance"@,
            TriggerError::EmptyPrompt => "VLM prompt must not be empty"@,
            TriggerError::IndexOutOfRange(i) => "temporal observation index "@ + decimal(*i as nat) + " is out of range"@,
            TriggerError::NoneWorthy => "temporal analysis contains no VLM-worthy observation"@,
            TriggerError::NotWorthy(kind) => "temporal observation "@ + kind@ + " does not warrant a VLM call"@,
        }
    }

    /// Renders the description of the error.
    pub fn message(&self) -> (r: String)
        ensures
            r@ == self.text(),
    {
        let mut s = String::new();
        match self {
            TriggerError::NotTemporalAnalysis => push_str(&mut s, "VLM trigger must be a temporal analysis event"),
            TriggerError::NotDerived => push_str(&mut s, "VLM trigger must retain derived provenance"),
            TriggerError::EmptyPrompt => push_str(&mut s, "VLM prompt must not be empty"),
            TriggerError::IndexOutOfRange(i) => {
                push_str(&mut s, "temporal observation index ");
                push_decimal(&mut s, *i as u64);
                push_str(&mut s, " is out of range");
            },
            TriggerError::NoneWorthy => push_str(&mut s, "temporal analysis contains no VLM-worthy observation"),
            TriggerError::NotWorthy(kind) => {
                push_str(&mut s, "temporal observation ");
                push_str(&mut s, kind.as_str());
                push_str(&mut s, " does not warrant a VLM call");
            },
        }
        s
    }
}

/// The event a model observation starts from must be a temporal analysis that kept its
/// derived provenance, and the prompt must not be blank.
pub fn check_trigger_event(kind: &str, provenance: Provenance, prompt: &str) -> (r: Result<(), TriggerError>)
    ensures
        r == (if kind@ != "perception.temporal.analysis"@ {
            Err(TriggerError::NotTemporalAnalysis)
        } else if provenance != Provenance::Derived {
            Err(TriggerError::NotDerived)
        } else if trim(prompt@).len() == 0 {
            Err(TriggerError::EmptyPrompt)
        } else {
            Ok(())
        }),
{
    if !str_equal(kind, "perception.temporal.analysis") {
        return Err(TriggerError::NotTemporalAnalysis);
    }
    if provenance != Provenance::Derived {
        return Err(TriggerError::NotDerived);
    }
    let p = chars_of(prompt);
    let t = trim_chars(p.as_slice());
    if t.len() == 0 {
        return Err(TriggerError::EmptyPrompt);
    }
    Ok(())
}

/// Whether an observation warrants a model call: a repeated region, a reverted state, a
/// pixel translation, a large changed region, several states while the pointer was held,
/// a network reply before the visual response, or a delayed visual response.
pub open spec fn worthy(c: TriggerCandidate) -> bool {
    ||| c.kind@ == "display.region_updated_repeatedly"@
    ||| c.kind@ == "display.state_reverted"@
    ||| c.kind@ == "display.pixel_translation_detected"@
    ||| c.kind@ == "display.large_changed_region"@
    ||| c.kind@ == "input.multiple_visual_states_while_pointer_down"@
    ||| c.kind@ == "network.response_before_visual_response"@
    ||| (c.kind@ == "input.visual_response"@ && c.delayed == Some(true))
}

fn worthy_exec(c: &TriggerCandidate) -> (r: bool)
    ensures
        r == worthy(*c),
{
    let k = c.kind.as_str();
    str_equal(k, "display.region_updated_repeatedly") || str_equal(k, "display.state_reverted")
        || str_equal(k, "display.pixel_translation_detected") || str_equal(k, "display.large_changed_region")
        || str_equal(k, "input.multiple_visual_states_while_pointer_down")
        || str_equal(k, "network.response_before_visual_response")
        || (str_equal(k, "input.visual_response") && match c.delayed {
            Some(d) => d,
            None => false,
        })
}

/// What selecting the observation of a model call gives: the requested one, which must
/// exist and warrant a call, or else the first that warrants one.
pub open spec fn selection_ok(candidates: Seq<TriggerCandidate>, index: Option<usize>, r: Result<usize, TriggerError>) -> bool {
    match index {
        Some(i) => if i >= candidates.len() {
            r == Err::<usize, TriggerError>(TriggerError::IndexOutOfRange(i))
        } else if !worthy(candidates[i as int]) {
            r matches Err(TriggerError::NotWorthy(kind)) && kind@ == candidates[i as int].kind@
        } else {
            r == Ok::<usize, TriggerError>(i)
        },
        None => match r {
            Ok(k) => k < candidates.len() && worthy(candidates[k as int])
                && forall|j: int| 0 <= j < k ==> !worthy(#[trigger] candidates[j]),
            Err(e) => e == TriggerError::NoneWorthy && forall|j: int| 0 <= j < candidates.len() ==> !worthy(#[trigger] candidates[j]),
        },
    }
}

/// Every kind of observation that warrants a model call is selected: requested, it is
/// the choice; unrequested, the choice is it or an earlier one that warrants a call. The
/// kinds are a repeated region, a reverted state, a pixel translation, a large changed
/// region, several states while the pointer was held, a network reply before the visual
/// response, and a delayed visual response; any other observation is refused when
/// requested, and a list without one of those kinds has nothing to select.
pub proof fn law_interesting_observations_are_selected(
    candidates: Seq<TriggerCandidate>,
    k: int,
    requested: Result<usize, TriggerError>,
    first: Result<usize, TriggerError>,
)
    requires
        0 <= k < candidates.len(),
        k <= usize::MAX,
        selection_ok(candidates, Some(k as usize), requested),
        selection_ok(candidates, None, first),
    ensures
        ({
            let kind = candidates[k].kind@;
            ||| kind == "display.region_updated_repeatedly"@
            ||| kind == "display.state_reverted"@
            ||| kind == "display.pixel_translation_detected"@
            ||| kind == "display.large_changed_region"@
            ||| kind == "input.multiple_visual_states_while_pointer_down"@
            ||| kind == "network.response_before_visual_response"@
            ||| (kind == "input.visual_response"@ && candidates[k].delayed == Some(true))
        }) ==> (requested == Ok::<usize, TriggerError>(k as usize) && (first matches Ok(j) && j <= k)),
        !({
            let kind = candidates[k].kind@;
            ||| kind == "display.region_updated_repeatedly"@
            ||| kind == "display.state_reverted"@
            ||| kind == "display.pixel_translation_detected"@
            ||| kind == "display.large_changed_region"@
            ||| kind == "input.multiple_visual_states_while_pointer_down"@
            ||| kind == "network.response_before_visual_response"@
            ||| (kind == "input.visual_response"@ && candidates[k].delayed == Some(true))
        }) ==> (requested matches Err(TriggerError::NotWorthy(kind)) && kind@ == candidates[k].kind@),
        (forall|j: int| 0 <= j < candidates.len() ==> !({
            let kind = (#[trigger] candidates[j]).kind@;
            ||| kind == "display.region_updated_repeatedly"@
            ||| kind == "display.state_reverted"@
            ||| kind == "display.pixel_translation_detected"@
            ||| kind == "display.large_changed_region"@
            ||| kind == "input.multiple_visual_states_while_pointer_down"@
            ||| kind == "network.response_before_visual_response"@
            ||| (kind == "input.visual_response"@ && candidates[j].delayed == Some(true))
        })) ==> first == Err::<usize, TriggerError>(TriggerError::NoneWorthy),
{
    if let Ok(j) = first {
        assert(worthy(candidates[j as int]));
    }
    if worthy(candidates[k]) {
        if first is Err {
            assert(!worthy(candidates[k]));
        }
        if let Ok(j) = first {
            if j > k {
                assert(!worthy(candidates[k]));
            }
        }
    }
}

/// Selects the observation a model call is about: the requested one, which must warrant
/// a call, or else the first that does.
pub fn select_trigger(candidates: &[TriggerCandidate], index: Option<usize>) -> (r: Result<usize, TriggerError>)
    ensures
        selection_ok(candidates@, index, r),
{
    match index {
        Some(i) => {
            if i >= candidates.len() {
                return Err(TriggerError::IndexOutOfRange(i));
            }
            if !worthy_exec(&candidates[i]) {
                return Err(TriggerError::NotWorthy(candidates[i].kind.clone()));
            }
            Ok(i)
        },
        None => {
            let mut k: usize = 0;
            while k < candidates.len()
                invariant
                    index is None,
                    k <= candidates@.len(),
                    forall|j: int| 0 <= j < k ==> !worthy(#[trigger] candidates@[j]),
                decreases candidates@.len() - k,
            {
                if worthy_exec(&candidates[k]) {
                    return Ok(k);
                }
                k = k + 1;
            }
            Err(TriggerError::NoneWorthy)
        },
    }
}

/// The host times of the frames shown to the model: just before the observation, at
/// its middle, and at its end.
pub fn frame_times(start_ns: u64, end_ns: u64) -> (r: [(&'static str, u64); 3])
    requires
        start_ns <= end_ns,
    ensures
        r[0].0@ == "before"@ && r[0].1 == (if start_ns == 0 { 0 } else { start_ns - 1 }),
        r[1].0@ == "during"@ && r[1].1 == start_ns + (end_ns - start_ns) / 2,
        r[2].0@ == "after"@ && r[2].1 == end_ns,
{
    let before = if start_ns == 0 { 0 } else { start_ns - 1 };
    [("before", before), ("during", start_ns + (end_ns - start_ns) / 2), ("after", end_ns)]
}

} // verus!
