//! The model hosting marketplace's vocabulary and rules: model kinds,
//! specifications and statuses, the checks a specification must pass, the
//! quality assurance queue, and the base price of each kind of model.
use vstd::prelude::*;
use crate::address::Address;
use crate::sys::{new_uuid, now_unix_seconds};
use crate::vecmap::{has_key, key_pos, KeyEq, VecMap};

verus! {

/// Why a model specification was refused.
#[derive(Debug, Clone, Copy, PartialEq, Eq)]
pub enum ModelError {
    /// The model has no name.
    EmptyModelName,
    /// The model asks for less than 1 GB of memory.
    InsufficientMemory,
    /// The model asks for no CPU core.
    InsufficientCpu,
    /// No inference request has that id.
    RequestNotFound,
    /// The request was routed to another provider.
    ProviderNotAuthorized,
}

/// The kinds of hosted model.
#[derive(Debug, Clone, Copy, PartialEq, Eq, Hash, Structural)]
pub enum ModelType {
    LanguageModel,
    ImageGeneration,
    ImageClassification,
    CodeGeneration,
    AudioProcessing,
    VideoAnalysis,
    DataAnalysis,
    ReinforcementLearning,
}

impl View for ModelType {
    type V = ModelType;

    open spec fn view(&self) -> ModelType {
        *self
    }
}

impl KeyEq for ModelType {
    fn key_eq(&self, other: &Self) -> (r: bool) {
        *self == *other
    }
}

/// What a model needs to run.
#[derive(Debug, Clone, Copy, PartialEq, Eq)]
pub struct ComputeRequirements {
    pub cpu_cores: u32,
    pub memory_gb: u32,
    pub requires_gpu: bool,
    pub gpu_memory_gb: Option<u32>,
    pub storage_gb: u32,
    pub network_bandwidth_mbps: u32,
}

/// A model offered for hosting.
#[derive(Debug)]
pub struct ModelSpec {
    pub model_name: String,
    pub model_type: ModelType,
    pub model_version: String,
    pub description: String,
    pub compute_requirements: ComputeRequirements,
    pub supported_input_formats: Vec<String>,
    pub supported_output_formats: Vec<String>,
    pub availability_zone: Option<String>,
    pub api_endpoint: String,
}

/// Where a hosted model stands.
#[derive(Debug, Clone, Copy, PartialEq, Eq, Structural)]
pub enum ModelStatus {
    Validating,
    Active,
    Inactive,
    Deprecated,
    Suspended,
}

/// Where an inference request stands.
#[derive(Debug, Clone, Copy, PartialEq, Eq, Structural)]
pub enum InferenceStatus {
    Pending,
    Processing,
    Completed,
    Failed,
    Cancelled,
}

/// How requests are spread over suitable models.
#[derive(Debug, Clone, Copy, PartialEq, Eq, Structural)]
pub enum LoadBalancingStrategy {
    RoundRobin,
    ReputationWeighted,
    LatencyOptimized,
}

/// Where a model's validation stands.
#[derive(Debug, Clone, Copy, PartialEq, Eq, Structural)]
pub enum ValidationStatus {
    InProgress,
    Passed,
    Failed,
}

/// The marketplace's totals.
#[derive(Debug, Clone, Copy, PartialEq, Eq)]
pub struct MarketplaceStats {
    pub total_models: usize,
    pub active_models: usize,
    pub total_providers: usize,
    pub total_inferences: u64,
    pub total_earnings: u64,
    pub pending_requests: usize,
}

/// Spreads inference requests over suitable models.
#[derive(Debug)]
pub struct LoadBalancer {
    pub balancing_strategy: LoadBalancingStrategy,
}

impl LoadBalancer {
    /// A balancer that prefers the best reputation.
    pub fn new() -> (r: LoadBalancer)
        ensures
            r.balancing_strategy == LoadBalancingStrategy::ReputationWeighted,
    {
        LoadBalancer { balancing_strategy: LoadBalancingStrategy::ReputationWeighted }
    }
}

/// The base price of a request to each kind of model, in base units.
pub open spec fn initial_rates() -> Map<ModelType, u64> {
    map![
        ModelType::LanguageModel => 1_000_000u64,
        ModelType::ImageGeneration => 5_000_000u64,
        ModelType::CodeGeneration => 2_000_000u64,
        ModelType::AudioProcessing => 3_000_000u64,
        ModelType::VideoAnalysis => 10_000_000u64,
    ]
}

/// The base price of a kind of model with no rate of its own: 0.01 PAR.
pub const DEFAULT_BASE_RATE: u64 = 1_000_000;

/// Prices inference on hosted models.
#[derive(Debug)]
pub struct ModelPricingEngine {
    base_pricing_rates: VecMap<ModelType, u64>,
}

impl ModelPricingEngine {
    /// The base price of each kind of model.
    pub closed spec fn rates(self) -> Map<ModelType, u64> {
        self.base_pricing_rates@
    }

    /// The map is well formed.
    pub closed spec fn wf(self) -> bool {
        self.base_pricing_rates.wf()
    }

    /// An engine with the base rates of five kinds of model.
    pub fn new() -> (r: ModelPricingEngine)
        ensures
            r.wf(),
            r.rates() == initial_rates(),
    {
        let mut rates: VecMap<ModelType, u64> = VecMap::new();
        rates.insert(ModelType::LanguageModel, 1_000_000);
        rates.insert(ModelType::ImageGeneration, 5_000_000);
        rates.insert(ModelType::CodeGeneration, 2_000_000);
        rates.insert(ModelType::AudioProcessing, 3_000_000);
        rates.insert(ModelType::VideoAnalysis, 10_000_000);
        proof {
            assert(rates@ =~= initial_rates());
        }
        ModelPricingEngine { base_pricing_rates: rates }
    }

    /// The base price of a kind of model, before its compute requirements
    /// scale it.
    pub fn base_rate(&self, model_type: ModelType) -> (r: u64)
        requires
            self.wf(),
        ensures
            r == (if self.rates().contains_key(model_type) {
                self.rates()[model_type]
            } else {
                DEFAULT_BASE_RATE
            }),
    {
        match self.base_pricing_rates.get(&model_type) {
            Some(rate) => *rate,
            None => DEFAULT_BASE_RATE,
        }
    }
}

/// A model's validation run.
#[derive(Debug, Clone, Copy, PartialEq, Eq)]
pub struct ValidationProcess {
    pub model_id: u128,
    /// Unix time in seconds.
    pub started_at: i64,
    pub status: ValidationStatus,
    pub test_cases_passed: u32,
    pub test_cases_total: u32,
}

/// Checks model specifications and runs new models through validation.
#[derive(Debug)]
pub struct QualityAssuranceSystem {
    validation_queue: VecMap<u128, ValidationProcess>,
}

impl QualityAssuranceSystem {
    /// The validation runs by model id.
    pub closed spec fn queue(self) -> Map<u128, ValidationProcess> {
        self.validation_queue@
    }

    /// The map is well formed.
    pub closed spec fn wf(self) -> bool {
        self.validation_queue.wf()
    }

    /// No runs yet.
    pub fn new() -> (r: QualityAssuranceSystem)
        ensures
            r.wf(),
            r.queue() == Map::<u128, ValidationProcess>::empty(),
    {
        QualityAssuranceSystem { validation_queue: VecMap::new() }
    }

    /// Checks a specification: a name, at least 1 GB of memory and at least
    /// one CPU core, checked in that order.
    pub fn validate_model_spec(&self, model_spec: &ModelSpec) -> (r: Result<(), ModelError>)
        ensures
            model_spec.model_name@.len() == 0 ==> r == Err::<(), ModelError>(ModelError::EmptyModelName),
            model_spec.model_name@.len() > 0 && model_spec.compute_requirements.memory_gb < 1 ==> r == Err::<
                (),
                ModelError,
            >(ModelError::InsufficientMemory),
            model_spec.model_name@.len() > 0 && model_spec.compute_requirements.memory_gb >= 1
                && model_spec.compute_requirements.cpu_cores < 1 ==> r == Err::<(), ModelError>(
                ModelError::InsufficientCpu,
            ),
            model_spec.model_name@.len() > 0 && model_spec.compute_requirements.memory_gb >= 1
                && model_spec.compute_requirements.cpu_cores >= 1 ==> r is Ok,
    {
        if model_spec.model_name.unicode_len() == 0 {
            return Err(ModelError::EmptyModelName);
        }
        if model_spec.compute_requirements.memory_gb < 1 {
            return Err(ModelError::InsufficientMemory);
        }
        if model_spec.compute_requirements.cpu_cores < 1 {
            return Err(ModelError::InsufficientCpu);
        }
        Ok(())
    }

    /// Starts validating a model: a run in progress with none of the five
    /// standard test cases passed yet.
    pub fn start_model_validation(&mut self, model_id: u128)
        requires
            old(self).wf(),
        ensures
            final(self).wf(),
            final(self).queue().contains_key(model_id),
            final(self).queue() == old(self).queue().insert(model_id, final(self).queue()[model_id]),
            final(self).queue()[model_id].model_id == model_id,
            final(self).queue()[model_id].status == ValidationStatus::InProgress,
            final(self).queue()[model_id].test_cases_passed == 0,
            final(self).queue()[model_id].test_cases_total == 5,
    {
        let process = ValidationProcess {
            model_id,
            started_at: now_unix_seconds(),
            status: ValidationStatus::InProgress,
            test_cases_passed: 0,
            test_cases_total: 5,
        };
        self.validation_queue.insert(model_id, process);
    }
}


/// A model listed in the marketplace.
#[derive(Debug)]
pub struct HostedModel {
    pub id: u128,
    pub provider: Address,
    pub spec: ModelSpec,
    pub status: ModelStatus,
    /// Unix time in seconds.
    pub registered_at: i64,
    pub total_inferences: u64,
    pub total_earnings: u64,
}

/// A provider hosting models.
#[derive(Debug)]
pub struct HostingProvider {
    pub address: Address,
    /// Unix time in seconds.
    pub registered_at: i64,
    pub hosted_models: Vec<u128>,
    pub total_inferences_served: u64,
    pub total_earnings: u64,
    pub compute_capabilities: ComputeRequirements,
    pub availability_zone: Option<String>,
}

/// A request for inference routed to a model.
#[derive(Debug, Clone, Copy)]
pub struct InferenceRequest {
    pub id: u128,
    pub requester: Address,
    pub model_id: u128,
    pub provider: Address,
    pub max_latency_ms: u64,
    /// What the request costs, in base units.
    pub total_cost: u64,
    pub status: InferenceStatus,
    /// Unix time in seconds.
    pub submitted_at: i64,
    pub completed_at: Option<i64>,
}

/// The inferences served by some models, in total.
pub open spec fn inferences_total(s: Seq<(u128, HostedModel)>) -> int
    decreases s.len(),
{
    if s.len() == 0 {
        0
    } else {
        inferences_total(s.drop_last()) + s.last().1.total_inferences
    }
}

/// The earnings of some models, in total.
pub open spec fn earnings_total(s: Seq<(u128, HostedModel)>) -> int
    decreases s.len(),
{
    if s.len() == 0 {
        0
    } else {
        earnings_total(s.drop_last()) + s.last().1.total_earnings
    }
}

/// How many of some models are active.
pub open spec fn active_count(s: Seq<(u128, HostedModel)>) -> int
    decreases s.len(),
{
    if s.len() == 0 {
        0
    } else {
        active_count(s.drop_last()) + (if s.last().1.status == ModelStatus::Active {
            1int
        } else {
            0int
        })
    }
}

/// Whether a model can serve a request for this kind of model in this
/// zone: it is active, of that kind, and not placed in another zone when
/// one is asked for.
pub open spec fn serves(m: HostedModel, model_type: ModelType, zone: Option<String>) -> bool {
    &&& m.status == ModelStatus::Active
    &&& m.spec.model_type == model_type
    &&& !(zone matches Some(z) && m.spec.availability_zone matches Some(mz) && mz@ != z@)
}

/// The ids of the listed models that can serve a request, in list order.
pub open spec fn serving_ids(s: Seq<(u128, HostedModel)>, model_type: ModelType, zone: Option<String>) -> Seq<u128>
    decreases s.len(),
{
    if s.len() == 0 {
        Seq::empty()
    } else {
        let rest = serving_ids(s.drop_last(), model_type, zone);
        if serves(s.last().1, model_type, zone) {
            rest.push(s.last().0)
        } else {
            rest
        }
    }
}

proof fn lemma_totals_nonneg(s: Seq<(u128, HostedModel)>)
    ensures
        inferences_total(s) >= 0,
        earnings_total(s) >= 0,
    decreases s.len(),
{
    if s.len() > 0 {
        lemma_totals_nonneg(s.drop_last());
    }
}

proof fn lemma_totals_remove(s: Seq<(u128, HostedModel)>, i: int)
    requires
        0 <= i < s.len(),
    ensures
        inferences_total(s.remove(i)) == inferences_total(s) - s[i].1.total_inferences,
        earnings_total(s.remove(i)) == earnings_total(s) - s[i].1.total_earnings,
        active_count(s.remove(i)) == active_count(s) - (if s[i].1.status == ModelStatus::Active {
            1int
        } else {
            0int
        }),
    decreases s.len(),
{
    if i == s.len() - 1 {
        assert(s.remove(i) =~= s.drop_last());
    } else {
        assert(s.remove(i).drop_last() =~= s.drop_last().remove(i));
        lemma_totals_remove(s.drop_last(), i);
    }
}

proof fn lemma_totals_push(s: Seq<(u128, HostedModel)>, e: (u128, HostedModel))
    ensures
        inferences_total(s.push(e)) == inferences_total(s) + e.1.total_inferences,
        earnings_total(s.push(e)) == earnings_total(s) + e.1.total_earnings,
        active_count(s.push(e)) == active_count(s) + (if e.1.status == ModelStatus::Active {
            1int
        } else {
            0int
        }),
{
    assert(s.push(e).drop_last() =~= s);
}

proof fn lemma_entry_within_totals(s: Seq<(u128, HostedModel)>, i: int)
    requires
        0 <= i < s.len(),
    ensures
        s[i].1.total_inferences <= inferences_total(s),
        s[i].1.total_earnings <= earnings_total(s),
{
    lemma_totals_remove(s, i);
    lemma_totals_nonneg(s.remove(i));
}

fn clone_zone(z: &Option<String>) -> (r: Option<String>)
    ensures
        r == *z,
{
    match z {
        Some(s) => Some(s.clone()),
        None => None,
    }
}

/// The marketplace: hosted models, their providers and the inference
/// requests routed to them.
#[derive(Debug)]
pub struct ModelHosting {
    model_registry: VecMap<u128, HostedModel>,
    hosting_providers: VecMap<Address, HostingProvider>,
    inference_queue: VecMap<u128, InferenceRequest>,
    load_balancer: LoadBalancer,
    pricing_engine: ModelPricingEngine,
    quality_assurance: QualityAssuranceSystem,
}

impl ModelHosting {
    /// The models by id.
    pub closed spec fn models(self) -> Map<u128, HostedModel> {
        self.model_registry@
    }

    /// The models in the order they were last updated.
    pub closed spec fn model_list(self) -> Seq<(u128, HostedModel)> {
        self.model_registry.entries()
    }

    /// The providers by address.
    pub closed spec fn providers(self) -> Map<Seq<u8>, HostingProvider> {
        self.hosting_providers@
    }

    /// The inference requests by id.
    pub closed spec fn requests(self) -> Map<u128, InferenceRequest> {
        self.inference_queue@
    }

    /// The validation runs by model id.
    pub closed spec fn validations(self) -> Map<u128, ValidationProcess> {
        self.quality_assurance.queue()
    }

    /// How the load balancer picks among suitable models.
    pub closed spec fn balancing_strategy(self) -> LoadBalancingStrategy {
        self.load_balancer.balancing_strategy
    }

    /// The maps are well formed, models and requests are filed under their
    /// ids, and the models' inference and earning totals fit 64 bits.
    pub closed spec fn wf(self) -> bool {
        &&& self.model_registry.wf()
        &&& self.hosting_providers.wf()
        &&& self.inference_queue.wf()
        &&& self.quality_assurance.wf()
        &&& self.pricing_engine.wf()
        &&& self.pricing_engine.rates() == initial_rates()
        &&& forall|k: u128| #[trigger] self.model_registry@.contains_key(k) ==> self.model_registry@[k].id == k
        &&& forall|k: u128| #[trigger] self.inference_queue@.contains_key(k) ==> self.inference_queue@[k].id == k
        &&& inferences_total(self.model_registry.entries()) <= u64::MAX
        &&& earnings_total(self.model_registry.entries()) <= u64::MAX
    }

    /// An empty marketplace.
    pub fn new() -> (r: ModelHosting)
        ensures
            r.wf(),
            r.models() == Map::<u128, HostedModel>::empty(),
            r.model_list() == Seq::<(u128, HostedModel)>::empty(),
            r.providers() == Map::<Seq<u8>, HostingProvider>::empty(),
            r.requests() == Map::<u128, InferenceRequest>::empty(),
            r.validations() == Map::<u128, ValidationProcess>::empty(),
            r.balancing_strategy() == LoadBalancingStrategy::ReputationWeighted,
    {
        ModelHosting {
            model_registry: VecMap::new(),
            hosting_providers: VecMap::new(),
            inference_queue: VecMap::new(),
            load_balancer: LoadBalancer::new(),
            pricing_engine: ModelPricingEngine::new(),
            quality_assurance: QualityAssuranceSystem::new(),
        }
    }

    /// The base rate the marketplace prices a kind of model at.
    pub fn base_rate(&self, model_type: ModelType) -> (r: u64)
        requires
            self.wf(),
        ensures
            r == (if initial_rates().contains_key(model_type) {
                initial_rates()[model_type]
            } else {
                DEFAULT_BASE_RATE
            }),
    {
        self.pricing_engine.base_rate(model_type)
    }

    /// Lists a model: refused as `validate_model_spec` refuses its
    /// specification; otherwise filed under a fresh id as validating, with
    /// no inferences or earnings, added to its provider's models (a new
    /// provider is registered with the model's compute requirements and
    /// zone), and sent through validation.
    pub fn register_model(&mut self, provider: Address, model_spec: ModelSpec) -> (r: Result<u128, ModelError>)
        requires
            old(self).wf(),
        ensures
            final(self).wf(),
            model_spec.model_name@.len() == 0 ==> r == Err::<u128, ModelError>(ModelError::EmptyModelName),
            model_spec.model_name@.len() > 0 && model_spec.compute_requirements.memory_gb < 1 ==> r == Err::<
                u128,
                ModelError,
            >(ModelError::InsufficientMemory),
            model_spec.model_name@.len() > 0 && model_spec.compute_requirements.memory_gb >= 1
                && model_spec.compute_requirements.cpu_cores < 1 ==> r == Err::<u128, ModelError>(
                ModelError::InsufficientCpu,
            ),
            r is Err ==> *final(self) == *old(self),
            model_spec.model_name@.len() > 0 && model_spec.compute_requirements.memory_gb >= 1
                && model_spec.compute_requirements.cpu_cores >= 1 ==> (r matches Ok(id) && {
                let m = final(self).models()[id];
                &&& final(self).models() == old(self).models().insert(id, m)
                &&& final(self).model_list().len() > 0
                &&& final(self).model_list().last() == (id, m)
                &&& !old(self).models().contains_key(id) ==> {
                    &&& final(self).model_list() == old(self).model_list().push((id, m))
                    &&& active_count(final(self).model_list()) == active_count(old(self).model_list())
                    &&& inferences_total(final(self).model_list()) == inferences_total(old(self).model_list())
                    &&& earnings_total(final(self).model_list()) == earnings_total(old(self).model_list())
                }
                &&& m.id == id
                &&& m.provider == provider
                &&& m.spec == model_spec
                &&& m.status == ModelStatus::Validating
                &&& m.total_inferences == 0
                &&& m.total_earnings == 0
                &&& final(self).providers().contains_key(provider@)
                &&& (old(self).providers().contains_key(provider@) ==> final(self).providers()[provider@]
                    == HostingProvider {
                    hosted_models: final(self).providers()[provider@].hosted_models,
                    ..old(self).providers()[provider@]
                } && final(self).providers()[provider@].hosted_models@ == old(
                    self,
                ).providers()[provider@].hosted_models@.push(id))
                &&& (!old(self).providers().contains_key(provider@) ==> {
                    let p = final(self).providers()[provider@];
                    &&& p.address == provider
                    &&& p.hosted_models@ == seq![id]
                    &&& p.total_inferences_served == 0
                    &&& p.total_earnings == 0
                    &&& p.compute_capabilities == model_spec.compute_requirements
                    &&& p.availability_zone == model_spec.availability_zone
                })
                &&& final(self).providers() == old(self).providers().insert(
                    provider@,
                    final(self).providers()[provider@],
                )
                &&& final(self).validations().contains_key(id)
                &&& final(self).validations()[id].status == ValidationStatus::InProgress
                &&& final(self).requests() == old(self).requests()
            }),
    {
        match self.quality_assurance.validate_model_spec(&model_spec) {
            Err(e) => {
                return Err(e);
            },
            Ok(()) => {},
        }
        let model_id = new_uuid();
        let now = now_unix_seconds();
        let capabilities = model_spec.compute_requirements;
        let zone = clone_zone(&model_spec.availability_zone);
        let ghost spec_copy = model_spec;
        let model = HostedModel {
            id: model_id,
            provider,
            spec: model_spec,
            status: ModelStatus::Validating,
            registered_at: now,
            total_inferences: 0,
            total_earnings: 0,
        };
        let ghost before = self.model_registry.entries();
        proof {
            lemma_totals_nonneg(before);
            self.model_registry.lemma_contains_has_key(model_id);
            assert(before.push((model_id, model)).drop_last() =~= before);
        }
        match self.model_registry.remove(&model_id) {
            Some(_) => {
                proof {
                    let i = key_pos(before, model_id);
                    lemma_totals_remove(before, i);
                }
            },
            None => {},
        }
        let ghost mid = self.model_registry.entries();
        proof {
            self.model_registry.lemma_contains_has_key(model_id);
        }
        self.model_registry.insert(model_id, model);
        proof {
            assert(!has_key(mid, model_id));
            lemma_totals_push(mid, (model_id, model));
            lemma_totals_nonneg(mid);
        }
        match self.hosting_providers.remove(&provider) {
            Some(existing) => {
                let HostingProvider {
                    address,
                    registered_at,
                    hosted_models,
                    total_inferences_served,
                    total_earnings,
                    compute_capabilities,
                    availability_zone,
                } = existing;
                let mut hosted = hosted_models;
                hosted.push(model_id);
                self.hosting_providers.insert(
                    provider,
                    HostingProvider {
                        address,
                        registered_at,
                        hosted_models: hosted,
                        total_inferences_served,
                        total_earnings,
                        compute_capabilities,
                        availability_zone,
                    },
                );
            },
            None => {
                let mut hosted: Vec<u128> = Vec::new();
                hosted.push(model_id);
                self.hosting_providers.insert(
                    provider,
                    HostingProvider {
                        address: provider,
                        registered_at: now,
                        hosted_models: hosted,
                        total_inferences_served: 0,
                        total_earnings: 0,
                        compute_capabilities: capabilities,
                        availability_zone: zone,
                    },
                );
                proof {
                    assert(self.hosting_providers@[provider@].hosted_models@ =~= seq![model_id]);
                }
            },
        }
        self.quality_assurance.start_model_validation(model_id);
        proof {
            assert(self.model_registry@ =~= old(self).model_registry@.insert(model_id, model));
            assert(self.hosting_providers@ =~= old(self).hosting_providers@.insert(
                provider@,
                self.hosting_providers@[provider@],
            ));
        }
        Ok(model_id)
    }

    /// The ids of the models that can serve a request for this kind of
    /// model in this zone, in the order the models are listed.
    pub fn compatible_models(&self, model_type: ModelType, preferred_zone: &Option<String>) -> (r: Vec<u128>)
        requires
            self.wf(),
        ensures
            r@ == serving_ids(self.model_list(), model_type, *preferred_zone),
    {
        let ghost list = self.model_list();
        let mut r: Vec<u128> = Vec::new();
        let n = self.model_registry.len();
        let mut i: usize = 0;
        while i < n
            invariant
                n == list.len(),
                list == self.model_list(),
                i <= n,
                r@ == serving_ids(list.take(i as int), model_type, *preferred_zone),
            decreases n - i,
        {
            let (k, m) = self.model_registry.entry_at(i);
            proof {
                assert(list.take(i as int + 1).drop_last() =~= list.take(i as int));
            }
            let zone_clash = match (preferred_zone, &m.spec.availability_zone) {
                (Some(z), Some(mz)) => *mz != *z,
                _ => false,
            };
            if m.status == ModelStatus::Active && m.spec.model_type == model_type && !zone_clash {
                r.push(*k);
            }
            i = i + 1;
        }
        proof {
            assert(list.take(n as int) =~= list);
        }
        r
    }

    /// Files a request routed to a listed model, pending, under a fresh id;
    /// hands back the id.
    pub fn file_inference_request(
        &mut self,
        requester: Address,
        model_id: u128,
        max_latency_ms: u64,
        total_cost: u64,
    ) -> (r: u128)
        requires
            old(self).wf(),
            old(self).models().contains_key(model_id),
        ensures
            final(self).wf(),
            final(self).requests() == old(self).requests().insert(r, final(self).requests()[r]),
            ({
                let q = final(self).requests()[r];
                &&& q.id == r
                &&& q.requester == requester
                &&& q.model_id == model_id
                &&& q.provider == old(self).models()[model_id].provider
                &&& q.max_latency_ms == max_latency_ms
                &&& q.total_cost == total_cost
                &&& q.status == InferenceStatus::Pending
                &&& q.completed_at is None
            }),
            final(self).models() == old(self).models(),
            final(self).model_list() == old(self).model_list(),
            final(self).providers() == old(self).providers(),
            final(self).validations() == old(self).validations(),
    {
        let provider = match self.model_registry.get(&model_id) {
            Some(m) => m.provider,
            None => Address([0u8; 32]),
        };
        let request_id = new_uuid();
        let request = InferenceRequest {
            id: request_id,
            requester,
            model_id,
            provider,
            max_latency_ms,
            total_cost,
            status: InferenceStatus::Pending,
            submitted_at: now_unix_seconds(),
            completed_at: None,
        };
        self.inference_queue.insert(request_id, request);
        request_id
    }

    /// Completes a request served by `provider`, who earned `earnings` for
    /// it: refused when no request has the id, then when it was routed to
    /// another provider; otherwise the request is completed now and the
    /// inference and earnings count to its model and to the provider.
    pub fn process_inference_request(&mut self, provider: &Address, request_id: u128, earnings: u64) -> (r: Result<
        u64,
        ModelError,
    >)
        requires
            old(self).wf(),
            old(self).requests().contains_key(request_id) && old(self).requests()[request_id].provider@ == provider@
                ==> {
                let mid = old(self).requests()[request_id].model_id;
                &&& inferences_total(old(self).model_list()) + 1 <= u64::MAX
                &&& earnings_total(old(self).model_list()) + earnings <= u64::MAX
                &&& (old(self).providers().contains_key(provider@) ==> old(self).providers()[provider@].total_inferences_served
                    + 1 <= u64::MAX && old(self).providers()[provider@].total_earnings + earnings <= u64::MAX)
            },
        ensures
            final(self).wf(),
            !old(self).requests().contains_key(request_id) ==> r == Err::<u64, ModelError>(ModelError::RequestNotFound)
                && *final(self) == *old(self),
            old(self).requests().contains_key(request_id) && old(self).requests()[request_id].provider@ != provider@
                ==> r == Err::<u64, ModelError>(ModelError::ProviderNotAuthorized) && *final(self) == *old(self),
            old(self).requests().contains_key(request_id) && old(self).requests()[request_id].provider@ == provider@
                ==> {
                let q = old(self).requests()[request_id];
                &&& r == Ok::<u64, ModelError>(earnings)
                &&& final(self).requests().contains_key(request_id)
                &&& final(self).requests()[request_id].status == InferenceStatus::Completed
                &&& final(self).requests()[request_id].completed_at is Some
                &&& final(self).requests() == old(self).requests().insert(
                    request_id,
                    final(self).requests()[request_id],
                )
                &&& (old(self).models().contains_key(q.model_id) ==> final(self).models() == old(self).models().insert(
                    q.model_id,
                    HostedModel {
                        total_inferences: (old(self).models()[q.model_id].total_inferences + 1) as u64,
                        total_earnings: (old(self).models()[q.model_id].total_earnings + earnings) as u64,
                        ..old(self).models()[q.model_id]
                    },
                ))
                &&& (!old(self).models().contains_key(q.model_id) ==> final(self).models() == old(self).models())
                &&& (old(self).models().contains_key(q.model_id) ==> earnings_total(final(self).model_list())
                    == earnings_total(old(self).model_list()) + earnings && inferences_total(final(self).model_list())
                    == inferences_total(old(self).model_list()) + 1)
                &&& (old(self).providers().contains_key(provider@) ==> final(self).providers() == old(
                    self,
                ).providers().insert(
                    provider@,
                    HostingProvider {
                        total_inferences_served: (old(self).providers()[provider@].total_inferences_served
                            + 1) as u64,
                        total_earnings: (old(self).providers()[provider@].total_earnings + earnings) as u64,
                        ..old(self).providers()[provider@]
                    },
                ))
                &&& (!old(self).providers().contains_key(provider@) ==> final(self).providers() == old(
                    self,
                ).providers())
            },
            final(self).validations() == old(self).validations(),
    {
        let request = match self.inference_queue.get(&request_id) {
            Some(q) => *q,
            None => {
                return Err(ModelError::RequestNotFound);
            },
        };
        if !request.provider.equals(provider) {
            return Err(ModelError::ProviderNotAuthorized);
        }
        let completed = InferenceRequest {
            status: InferenceStatus::Completed,
            completed_at: Some(now_unix_seconds()),
            ..request
        };
        self.inference_queue.insert(request_id, completed);
        let model_id = request.model_id;
        let ghost before = self.model_registry.entries();
        proof {
            self.model_registry.lemma_contains_has_key(model_id);
            self.model_registry.lemma_entries_view();
        }
        match self.model_registry.remove(&model_id) {
            Some(m) => {
                proof {
                    let i = key_pos(before, model_id);
                    lemma_totals_remove(before, i);
                    lemma_entry_within_totals(before, i);
                    lemma_totals_nonneg(before.remove(i));
                }
                let ghost mid = self.model_registry.entries();
                proof {
                    self.model_registry.lemma_contains_has_key(model_id);
                }
                let HostedModel { id, provider: owner, spec, status, registered_at, total_inferences, total_earnings } = m;
                let updated = HostedModel {
                    id,
                    provider: owner,
                    spec,
                    status,
                    registered_at,
                    total_inferences: total_inferences + 1,
                    total_earnings: total_earnings + earnings,
                };
                self.model_registry.insert(model_id, updated);
                proof {
                    assert(!has_key(mid, model_id));
                    lemma_totals_push(mid, (model_id, updated));
                }
            },
            None => {},
        }
        match self.hosting_providers.remove(provider) {
            Some(p) => {
                let HostingProvider {
                    address,
                    registered_at,
                    hosted_models,
                    total_inferences_served,
                    total_earnings,
                    compute_capabilities,
                    availability_zone,
                } = p;
                self.hosting_providers.insert(
                    *provider,
                    HostingProvider {
                        address,
                        registered_at,
                        hosted_models,
                        total_inferences_served: total_inferences_served + 1,
                        total_earnings: total_earnings + earnings,
                        compute_capabilities,
                        availability_zone,
                    },
                );
            },
            None => {},
        }
        proof {
            assert(self.hosting_providers@ =~= (if old(self).providers().contains_key(provider@) {
                old(self).providers().insert(provider@, self.hosting_providers@[provider@])
            } else {
                old(self).providers()
            }));
        }
        Ok(earnings)
    }

    /// The numbers of models, active models, providers and requests, and
    /// the inferences served and earnings over all models.
    pub fn get_marketplace_stats(&self) -> (r: MarketplaceStats)
        requires
            self.wf(),
        ensures
            r.total_models == self.models().dom().len(),
            r.active_models == active_count(self.model_list()),
            r.total_providers == self.providers().dom().len(),
            r.total_inferences == inferences_total(self.model_list()),
            r.total_earnings == earnings_total(self.model_list()),
            r.pending_requests == self.requests().dom().len(),
    {
        let ghost list = self.model_list();
        let n = self.model_registry.len();
        let mut active: usize = 0;
        let mut inferences: u64 = 0;
        let mut earned: u64 = 0;
        let mut i: usize = 0;
        while i < n
            invariant
                n == list.len(),
                list == self.model_list(),
                self.wf(),
                i <= n,
                active == active_count(list.take(i as int)),
                active <= i,
                inferences == inferences_total(list.take(i as int)),
                earned == earnings_total(list.take(i as int)),
            decreases n - i,
        {
            let (_, m) = self.model_registry.entry_at(i);
            proof {
                let t = list.take(i as int + 1);
                assert(t.drop_last() =~= list.take(i as int));
                assert(list =~= t + list.skip(i as int + 1));
                lemma_prefix_totals(list, i as int + 1);
            }
            if m.status == ModelStatus::Active {
                active = active + 1;
            }
            inferences = inferences + m.total_inferences;
            earned = earned + m.total_earnings;
            i = i + 1;
        }
        proof {
            assert(list.take(n as int) =~= list);
        }
        MarketplaceStats {
            total_models: n,
            active_models: active,
            total_providers: self.hosting_providers.len(),
            total_inferences: inferences,
            total_earnings: earned,
            pending_requests: self.inference_queue.len(),
        }
    }

    /// The model with an id, if any.
    pub fn get_model(&self, model_id: u128) -> (r: Option<&HostedModel>)
        requires
            self.wf(),
        ensures
            match r {
                Some(m) => self.models().contains_key(model_id) && *m == self.models()[model_id],
                None => !self.models().contains_key(model_id),
            },
    {
        self.model_registry.get(&model_id)
    }

    /// The provider with an address, if any.
    pub fn get_provider(&self, address: &Address) -> (r: Option<&HostingProvider>)
        requires
            self.wf(),
        ensures
            match r {
                Some(p) => self.providers().contains_key(address@) && *p == self.providers()[address@],
                None => !self.providers().contains_key(address@),
            },
    {
        self.hosting_providers.get(address)
    }

    /// The request with an id, if any.
    pub fn get_request(&self, request_id: u128) -> (r: Option<&InferenceRequest>)
        requires
            self.wf(),
        ensures
            match r {
                Some(q) => self.requests().contains_key(request_id) && *q == self.requests()[request_id],
                None => !self.requests().contains_key(request_id),
            },
    {
        self.inference_queue.get(&request_id)
    }
}

proof fn lemma_prefix_totals(s: Seq<(u128, HostedModel)>, k: int)
    requires
        0 <= k <= s.len(),
    ensures
        inferences_total(s.take(k)) <= inferences_total(s),
        earnings_total(s.take(k)) <= earnings_total(s),
    decreases s.len(),
{
    if k < s.len() {
        assert(s.drop_last().take(k) =~= s.take(k));
        lemma_prefix_totals(s.drop_last(), k);
    } else {
        assert(s.take(k) =~= s);
    }
}

} // verus!
