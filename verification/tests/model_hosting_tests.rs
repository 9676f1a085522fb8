use paradigm_core::address::Address;
use paradigm_core::tokenomics::model_hosting::{
    ComputeRequirements, InferenceStatus, ModelError, ModelHosting, ModelSpec, ModelStatus, ModelType,
};

fn chat_spec() -> ModelSpec {
    ModelSpec {
        model_name: "GPT-4 Chat".to_string(),
        model_type: ModelType::LanguageModel,
        model_version: "1.0.0".to_string(),
        description: "Advanced language model for chat".to_string(),
        compute_requirements: ComputeRequirements {
            cpu_cores: 8,
            memory_gb: 16,
            requires_gpu: true,
            gpu_memory_gb: Some(24),
            storage_gb: 100,
            network_bandwidth_mbps: 1000,
        },
        supported_input_formats: vec!["text/plain".to_string()],
        supported_output_formats: vec!["text/plain".to_string()],
        availability_zone: Some("us-west-2".to_string()),
        api_endpoint: "https://api.example.com/chat".to_string(),
    }
}

#[test]
fn test_model_registration() {
    let mut model_hosting = ModelHosting::new();
    let provider = Address([4u8; 32]);
    let model_id = model_hosting.register_model(provider, chat_spec()).unwrap();
    assert!(!uuid_text(model_id).is_empty());
    let stats = model_hosting.get_marketplace_stats();
    assert_eq!(stats.total_models, 1);
    assert_eq!(stats.total_providers, 1);
}

fn uuid_text(id: u128) -> String {
    format!("{:032x}", id)
}

#[test]
fn registered_model_is_validating_and_filed_with_its_provider() {
    let mut hosting = ModelHosting::new();
    let provider = Address([4u8; 32]);
    let first = hosting.register_model(provider, chat_spec()).unwrap();
    let second = hosting.register_model(provider, chat_spec()).unwrap();
    let model = hosting.get_model(first).unwrap();
    assert_eq!(model.status, ModelStatus::Validating);
    assert_eq!(model.total_earnings, 0);
    let p = hosting.get_provider(&provider).unwrap();
    assert_eq!(p.hosted_models, vec![first, second]);
    assert_eq!(p.availability_zone, Some("us-west-2".to_string()));
    let stats = hosting.get_marketplace_stats();
    assert_eq!(stats.total_models, 2);
    assert_eq!(stats.active_models, 0);
    assert_eq!(stats.total_providers, 1);
    // Validating models serve nothing.
    assert!(hosting.compatible_models(ModelType::LanguageModel, &None).is_empty());
}

#[test]
fn register_model_refuses_bad_specs() {
    let mut hosting = ModelHosting::new();
    let mut spec = chat_spec();
    spec.model_name = String::new();
    assert_eq!(hosting.register_model(Address([1u8; 32]), spec), Err(ModelError::EmptyModelName));
    let mut spec = chat_spec();
    spec.compute_requirements.memory_gb = 0;
    assert_eq!(hosting.register_model(Address([1u8; 32]), spec), Err(ModelError::InsufficientMemory));
    let mut spec = chat_spec();
    spec.compute_requirements.cpu_cores = 0;
    assert_eq!(hosting.register_model(Address([1u8; 32]), spec), Err(ModelError::InsufficientCpu));
    assert_eq!(hosting.get_marketplace_stats().total_models, 0);
}

#[test]
fn inference_requests_pay_model_and_provider() {
    let mut hosting = ModelHosting::new();
    let provider = Address([4u8; 32]);
    let model_id = hosting.register_model(provider, chat_spec()).unwrap();
    let request_id = hosting.file_inference_request(Address([9u8; 32]), model_id, 500, 1_500_000);
    let request = hosting.get_request(request_id).unwrap();
    assert_eq!(request.status, InferenceStatus::Pending);
    assert_eq!(request.provider, provider);
    assert_eq!(
        hosting.process_inference_request(&Address([5u8; 32]), request_id, 10),
        Err(ModelError::ProviderNotAuthorized)
    );
    assert_eq!(
        hosting.process_inference_request(&provider, request_id.wrapping_add(1), 10),
        Err(ModelError::RequestNotFound)
    );
    assert_eq!(hosting.process_inference_request(&provider, request_id, 1_650_000), Ok(1_650_000));
    assert_eq!(hosting.get_request(request_id).unwrap().status, InferenceStatus::Completed);
    assert_eq!(hosting.get_model(model_id).unwrap().total_inferences, 1);
    assert_eq!(hosting.get_provider(&provider).unwrap().total_earnings, 1_650_000);
    let stats = hosting.get_marketplace_stats();
    assert_eq!(stats.total_inferences, 1);
    assert_eq!(stats.total_earnings, 1_650_000);
    assert_eq!(stats.pending_requests, 1);
}

#[test]
fn marketplace_base_rates() {
    let hosting = ModelHosting::new();
    assert_eq!(hosting.base_rate(ModelType::VideoAnalysis), 10_000_000);
    assert_eq!(hosting.base_rate(ModelType::DataAnalysis), 1_000_000);
}

#[test]
fn test_model_hosting_initialization() {
    let model_hosting = ModelHosting::new();
    let stats = model_hosting.get_marketplace_stats();
    assert_eq!(stats.total_models, 0);
    assert_eq!(stats.total_providers, 0);
    assert_eq!(stats.pending_requests, 0);
}
