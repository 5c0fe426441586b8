use ffnet::layer::{create_layers, parse_activation, Activation, LayerConfig, LayerKind};
use ffnet::model::{create_model, ModelPlan};
use ffnet::optim::OptimizerParams;

#[test]
fn activation_names_bind_as_configured() {
    assert_eq!(parse_activation("relu"), Activation::Relu);
    assert_eq!(parse_activation("sigmoid"), Activation::Sigmoid);
    assert_eq!(parse_activation("identity"), Activation::Identity);
    // Anything unrecognized falls back to the identity.
    assert_eq!(parse_activation("tanh"), Activation::Identity);
    assert_eq!(parse_activation(""), Activation::Identity);
}

#[test]
fn layer_buffer_lengths_follow_the_widths() {
    let fc = LayerConfig::new_fully_connected(4, 3, Activation::Identity);
    assert_eq!(fc.i_size, 4);
    assert_eq!(fc.o_size, 3);
    assert_eq!(fc.weight_len(), 12);
    assert_eq!(fc.bias_len(), 3);
    assert_eq!(fc.kind, LayerKind::FullyConnected { activation: Activation::Identity });

    let sm = LayerConfig::new_softmax(10, 10);
    assert_eq!(sm.kind, LayerKind::Softmax);
    assert_eq!(sm.weight_len(), 100);
    assert_eq!(sm.bias_len(), 10);
}

#[test]
fn layer_stack_chains_through_every_width() {
    let sizes: Vec<usize> = vec![784, 1024, 1024, 10];
    let layers = create_layers(&sizes, Activation::Relu, true);
    assert_eq!(layers.len(), 4);

    for k in 0..3 {
        assert_eq!(layers[k].i_size, sizes[k]);
        assert_eq!(layers[k].o_size, sizes[k + 1]);
        assert_eq!(layers[k].kind, LayerKind::FullyConnected { activation: Activation::Relu });
    }
    assert_eq!(layers[3].i_size, 10);
    assert_eq!(layers[3].o_size, 10);
    assert_eq!(layers[3].kind, LayerKind::Softmax);

    for k in 0..layers.len() - 1 {
        assert_eq!(layers[k].o_size, layers[k + 1].i_size);
    }
}

#[test]
fn layer_stack_without_softmax() {
    let sizes: Vec<usize> = vec![4, 3];
    let layers = create_layers(&sizes, Activation::Identity, false);
    assert_eq!(layers.len(), 1);
    assert_eq!(layers[0].i_size, 4);
    assert_eq!(layers[0].o_size, 3);
}

#[test]
fn model_plan_reports_its_end_widths() {
    let sizes: Vec<usize> = vec![4, 3];
    let layers = create_layers(&sizes, Activation::Identity, true);
    let model: ModelPlan = create_model(layers);
    assert_eq!(model.len(), 2);
    assert_eq!(model.input_size(), 4);
    assert_eq!(model.output_size(), 3);
}

#[test]
fn optimizer_params_build() {
    let _p: OptimizerParams = OptimizerParams::new();
}
