use vstd::prelude::*;

verus! {

/// The kinds of generator (instrument) the project offers.
#[derive(PartialEq, Eq, Structural, Clone, Copy, Debug)]
pub enum Generator {
    SimpleWave,
    Noise,
    Stingray,
}

/// What the naming logic reads of a generator's settings.
pub struct GeneratorMeta {
    pub name: String,
    pub mute: bool,
    pub mixer_channel: usize,
}

/// A generator of the project with its settings.
pub struct GeneratorInstance {
    pub it: Generator,
    pub meta: GeneratorMeta,
}

/// The display name of a generator kind.
pub open spec fn kind_label(generator: Generator) -> Seq<char> {
    match generator {
        Generator::SimpleWave => "Simple Wave Generator"@,
        Generator::Noise => "Noise Generator"@,
        Generator::Stingray => "Stingray (Subtractive Synth)"@,
    }
}

/// The display name of a generator kind.
pub fn generator_name_from_type(generator: &Generator) -> (name: &'static str)
    ensures
        name@ == kind_label(*generator),
{
    match generator {
        Generator::SimpleWave => "Simple Wave Generator",
        Generator::Noise => "Noise Generator",
        Generator::Stingray => "Stingray (Subtractive Synth)",
    }
}

/// The title of a generator: the name the user gave it, or the display
/// name of its kind if that name is empty.
pub fn generator_name<'a>(instance: &'a GeneratorInstance) -> (name: &'a str)
    ensures
        name@ == if instance.meta.name@.len() > 0 { instance.meta.name@ } else { kind_label(instance.it) },
{
    let own = instance.meta.name.as_str();
    if !own.is_empty() {
        own
    } else {
        generator_name_from_type(&instance.it)
    }
}

/// The kinds of node in the audio graph.
#[derive(PartialEq, Eq, Structural, Clone, Copy, Debug)]
pub enum NodeLabel {
    Generator,
    Sample,
    Buffer,
    Effect,
    Amp,
    WetDry,
    Sum,
}

pub open spec fn inputs_of(label: NodeLabel) -> nat {
    match label {
        NodeLabel::Generator | NodeLabel::Sample | NodeLabel::Buffer => 0,
        NodeLabel::Effect | NodeLabel::Amp => 1,
        NodeLabel::WetDry | NodeLabel::Sum => 2,
    }
}

/// How many input pins the graph view draws for a node: sources have
/// none, effects and amplifiers one, mixers of two signals two.
pub fn input_count(label: NodeLabel) -> (n: usize)
    ensures
        n == inputs_of(label),
{
    match label {
        NodeLabel::Generator | NodeLabel::Sample | NodeLabel::Buffer => 0,
        NodeLabel::Effect | NodeLabel::Amp => 1,
        NodeLabel::WetDry | NodeLabel::Sum => 2,
    }
}

/// Every node has one output pin.
pub fn output_count(label: NodeLabel) -> (n: usize)
    ensures
        n == 1,
{
    1
}

} // verus!
