use hydric::generator::{
    generator_name, generator_name_from_type, input_count, output_count, Generator, GeneratorInstance, GeneratorMeta,
    NodeLabel,
};

fn instance(it: Generator, name: &str) -> GeneratorInstance {
    GeneratorInstance { it, meta: GeneratorMeta { name: name.to_string(), mute: false, mixer_channel: 0 } }
}

#[test]
fn kind_names() {
    assert_eq!(generator_name_from_type(&Generator::SimpleWave), "Simple Wave Generator");
    assert_eq!(generator_name_from_type(&Generator::Noise), "Noise Generator");
    assert_eq!(generator_name_from_type(&Generator::Stingray), "Stingray (Subtractive Synth)");
}

#[test]
fn a_given_name_wins() {
    assert_eq!(generator_name(&instance(Generator::Noise, "Hiss")), "Hiss");
    assert_eq!(generator_name(&instance(Generator::Noise, "")), "Noise Generator");
    assert_eq!(generator_name(&instance(Generator::Stingray, "")), "Stingray (Subtractive Synth)");
}

#[test]
fn graph_pins() {
    assert_eq!(input_count(NodeLabel::Generator), 0);
    assert_eq!(input_count(NodeLabel::Sample), 0);
    assert_eq!(input_count(NodeLabel::Buffer), 0);
    assert_eq!(input_count(NodeLabel::Effect), 1);
    assert_eq!(input_count(NodeLabel::Amp), 1);
    assert_eq!(input_count(NodeLabel::WetDry), 2);
    assert_eq!(input_count(NodeLabel::Sum), 2);
    assert_eq!(output_count(NodeLabel::Sum), 1);
}
