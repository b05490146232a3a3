//! What enemies are told to do: the actions and behaviours that a
//! configuration names, resolved to places in lists.
use vstd::prelude::*;
use crate::timer::Timer;
use crate::vector::Vec3;
use crate::world::Entity;

verus! {

/// Lets an enemy act at intervals.
#[derive(Clone, Copy, Debug, PartialEq, Eq)]
pub struct Ai {
    pub action_timer: Timer,
    pub target: Option<Entity>,
}

impl Ai {
    /// Lets `delta` nanoseconds pass; says whether it is time to act.
    pub fn do_action(&mut self, delta: u64) -> (due: bool)
        ensures
            *final(self) == (Ai { action_timer: old(self).action_timer.ticked(delta), ..*old(self) }),
            due == old(self).action_timer.ticked(delta).spec_just_finished(),
    {
        self.action_timer.tick(delta);
        self.action_timer.just_finished()
    }
}

/// Asks for the configuration of the given name to be loaded.
#[derive(Clone, Debug, PartialEq, Eq)]
pub struct AiRegister {
    pub name: String,
    pub index: Option<usize>,
}

impl AiRegister {
    pub fn new(name: &str) -> (r: Self)
        ensures
            r.name@ == name@,
            r.index is None,
    {
        AiRegister { name: name.to_owned(), index: None }
    }
}

/// Where the configuration of the given name is loaded from.
pub fn config_path(name: &str) -> (r: String)
    ensures
        r@ == "data/ai/"@ + name@ + ".aiconfig.json"@,
{
    let mut path: String = "data/ai/".to_owned();
    append(&mut path, name);
    append(&mut path, ".aiconfig.json");
    path
}

/// Adds `tail` to the end of `text`.
///
/// This calls `String::push_str` of the standard library, which is
/// documented to append the given slice to the end of the string. Nothing is
/// proved of the call.
#[verifier::external_body]
fn append(text: &mut String, tail: &str)
    ensures
        final(text)@ == old(text)@ + tail@,
{
    text.push_str(tail);
}

/// What an enemy can do.
#[derive(Clone, Copy, Debug, PartialEq, Eq)]
pub enum Action {
    Idle,
    SineWave { period: i32, offset: i32 },
    Turn { time: i32 },
    Home { max_speed: i32, acceleration: i32 },
    Drift { variance: Vec3, trend: Vec3 },
}

/// How a behaviour is weighed.
#[derive(Clone, Copy, Debug, PartialEq, Eq)]
pub enum Criteria {
    Value,
    Random,
}

#[derive(Clone, Copy, Debug, PartialEq, Eq)]
pub struct EvaluationCriteria {
    pub criteria: Criteria,
    pub weight: i32,
    pub offset: i32,
}

#[derive(Clone, Copy, Debug, PartialEq, Eq)]
pub struct BehaviourOption {
    pub behaviour_index: usize,
    pub high: i32,
    pub low: i32,
}

#[derive(Clone, Debug, PartialEq, Eq)]
pub struct Behaviour {
    pub first_eval: i32,
    pub action: usize,
    pub criteria: Vec<EvaluationCriteria>,
    pub options: Vec<BehaviourOption>,
}

/// One entry of a list of names: a name and the place it stands for. In
/// such a list the last entry of a name counts.
#[derive(Clone, Debug, PartialEq, Eq)]
pub struct Named {
    pub name: String,
    pub index: usize,
}

/// The actions and behaviours of one kind of enemy, with the places that
/// their names stand for.
#[derive(Clone, Debug, PartialEq, Eq)]
pub struct AiData {
    pub name: String,
    pub behaviour_indexes: Vec<Named>,
    pub action_indexes: Vec<Named>,
    pub actions: Vec<Action>,
    pub behaviours: Vec<Behaviour>,
}

/// The data of all kinds of enemy.
#[derive(Clone, Debug, PartialEq, Eq)]
pub struct AiDataCollection(pub Vec<AiData>);

/// The names of the configurations that are being loaded.
#[derive(Clone, Debug, PartialEq, Eq)]
pub struct AiConfigCollection(pub Vec<String>);

#[derive(Clone, Debug, PartialEq, Eq)]
pub struct ActionConfig {
    pub name: String,
    pub action_name: String,
    pub acceleration: Option<i32>,
    pub max_speed: Option<i32>,
    pub turn_time: Option<i32>,
    pub period: Option<i32>,
    pub offset: Option<i32>,
    pub variance: Option<(i32, i32)>,
    pub trend: Option<(i32, i32)>,
}

#[derive(Clone, Debug, PartialEq, Eq)]
pub struct CriteriaConfig {
    pub criteria: String,
    pub weight: Option<i32>,
    pub offset: Option<i32>,
}

#[derive(Clone, Debug, PartialEq, Eq)]
pub struct OptionConfig {
    pub behaviour: String,
    pub high: Option<i32>,
    pub low: Option<i32>,
}

#[derive(Clone, Debug, PartialEq, Eq)]
pub struct BehaviourConfig {
    pub name: String,
    pub action: String,
    pub first_eval: i32,
    pub criteria: Vec<CriteriaConfig>,
    pub options: Vec<OptionConfig>,
}

#[derive(Clone, Debug, PartialEq, Eq)]
pub struct AiConfig {
    pub actions: Vec<ActionConfig>,
    pub behaviour: Vec<BehaviourConfig>,
}

/// Why a configuration cannot be used.
#[derive(Clone, Copy, Debug, PartialEq, Eq)]
pub enum AiError {
    /// The action in this place names no kind of action.
    UnknownAction { action: usize },
    /// The behaviour in this place names an action that is not there.
    ActionNotFound { behaviour: usize },
    /// The behaviour in the first place names, in the second place of its
    /// criteria, no kind of criteria.
    UnknownCriteria { behaviour: usize, criteria: usize },
    /// The behaviour in the first place names, in the second place of its
    /// options, a behaviour that is not there.
    BehaviourNotFound { behaviour: usize, option: usize },
}

/// The kind of action that `name` names, with its parameters at zero.
pub open spec fn action_named(name: Seq<char>) -> Option<Action> {
    if name == "Idle"@ {
        Some(Action::Idle)
    } else if name == "SineWave"@ {
        Some(Action::SineWave { period: 0, offset: 0 })
    } else if name == "Turn"@ {
        Some(Action::Turn { time: 0 })
    } else if name == "Home"@ {
        Some(Action::Home { max_speed: 0, acceleration: 0 })
    } else if name == "Drift"@ {
        Some(Action::Drift { variance: Vec3::spec_zero(), trend: Vec3::spec_zero() })
    } else {
        None
    }
}

/// The kind of criteria that `name` names.
pub open spec fn criteria_named(name: Seq<char>) -> Option<Criteria> {
    if name == "Value"@ {
        Some(Criteria::Value)
    } else if name == "Random"@ {
        Some(Criteria::Random)
    } else {
        None
    }
}

fn is_name(name: &String, literal: &str) -> (r: bool)
    ensures
        r == (name@ == literal@),
{
    let other: String = literal.to_owned();
    *name == other
}

impl Action {
    /// The kind of action that `name` names, letter for letter.
    pub fn from_name(name: &String) -> (r: Option<Action>)
        ensures
            r == action_named(name@),
    {
        if is_name(name, "Idle") {
            Some(Action::Idle)
        } else if is_name(name, "SineWave") {
            Some(Action::SineWave { period: 0, offset: 0 })
        } else if is_name(name, "Turn") {
            Some(Action::Turn { time: 0 })
        } else if is_name(name, "Home") {
            Some(Action::Home { max_speed: 0, acceleration: 0 })
        } else if is_name(name, "Drift") {
            Some(Action::Drift { variance: Vec3::zero(), trend: Vec3::zero() })
        } else {
            None
        }
    }
}

impl Criteria {
    /// The kind of criteria that `name` names, letter for letter.
    pub fn from_name(name: &String) -> (r: Option<Criteria>)
        ensures
            r == criteria_named(name@),
    {
        if is_name(name, "Value") {
            Some(Criteria::Value)
        } else if is_name(name, "Random") {
            Some(Criteria::Random)
        } else {
            None
        }
    }
}

/// A list of names, each with the place it stands for. In such a list the
/// last entry of a name counts.
pub type Names = Seq<(Seq<char>, usize)>;

/// The names and places of `entries`.
pub open spec fn names_of(entries: Seq<Named>) -> Names {
    Seq::new(entries.len(), |i: int| (entries[i].name@, entries[i].index))
}

/// The place that `name` stands for among the first `upto` of `entries`:
/// that of its last entry.
pub open spec fn lookup_upto(entries: Names, upto: int, name: Seq<char>) -> Option<usize>
    decreases upto,
{
    if upto <= 0 {
        None
    } else if entries[upto - 1].0 == name {
        Some(entries[upto - 1].1)
    } else {
        lookup_upto(entries, upto - 1, name)
    }
}

/// The place that `name` stands for in `entries`.
pub open spec fn lookup(entries: Names, name: Seq<char>) -> Option<usize> {
    lookup_upto(entries, entries.len() as int, name)
}

/// The place that `name` stands for in `entries`.
pub fn find(entries: &Vec<Named>, name: &String) -> (r: Option<usize>)
    ensures
        r == lookup(names_of(entries@), name@),
{
    let mut i: usize = entries.len();
    while i > 0
        invariant
            i <= entries@.len(),
            lookup(names_of(entries@), name@) == lookup_upto(names_of(entries@), i as int, name@),
        decreases i,
    {
        i -= 1;
        if entries[i].name == *name {
            return Some(entries[i].index);
        }
    }
    None
}

/// The action that `config` asks for: the kind that it names. The numbers
/// of the configuration do not reach the action.
pub open spec fn action_of(config: ActionConfig) -> Option<Action> {
    action_named(config.action_name@)
}

/// Whether `config` names a kind of action.
pub fn names_action(config: &ActionConfig) -> (r: bool)
    ensures
        r == (action_of(*config) is Some),
{
    Action::from_name(&config.action_name).is_some()
}

/// The action that `config` asks for. The kind of action has to be named:
/// [`names_action`] says whether it is.
pub fn build_action(config: &ActionConfig) -> (r: Action)
    requires
        action_of(*config) is Some,
    ensures
        action_of(*config) == Some(r),
{
    match Action::from_name(&config.action_name) {
        Some(action) => action,
        None => vstd::pervasive::unreached(),
    }
}

/// The criteria that `config` asks for, where it names a kind: with the
/// weight one and the offset zero unless it gives others.
pub open spec fn criteria_of(config: CriteriaConfig) -> Option<EvaluationCriteria> {
    match criteria_named(config.criteria@) {
        Some(criteria) => Some(
            EvaluationCriteria {
                criteria,
                offset: match config.offset {
                    Some(offset) => offset,
                    None => 0,
                },
                weight: match config.weight {
                    Some(weight) => weight,
                    None => 1000,
                },
            },
        ),
        None => None,
    }
}

/// The option that `config` asks for, where the behaviour it names is among
/// `behaviour_indexes`: open upward and downward unless it gives bounds.
pub open spec fn option_of(config: OptionConfig, behaviour_indexes: Names) -> Option<
    BehaviourOption,
> {
    match lookup(behaviour_indexes, config.behaviour@) {
        Some(behaviour_index) => Some(
            BehaviourOption {
                behaviour_index,
                high: match config.high {
                    Some(high) => high,
                    None => i32::MAX,
                },
                low: match config.low {
                    Some(low) => low,
                    None => i32::MIN,
                },
            },
        ),
        None => None,
    }
}

/// Whether `built` holds what the criteria `configs` ask for, in their order.
pub open spec fn criteria_built(configs: Seq<CriteriaConfig>, built: Seq<EvaluationCriteria>) -> bool {
    &&& built.len() == configs.len()
    &&& forall|i: int| 0 <= i < configs.len() ==> criteria_of(#[trigger] configs[i]) == Some(built[i])
}

/// Whether `built` holds what the options `configs` ask for, in their order.
pub open spec fn options_built(
    configs: Seq<OptionConfig>,
    behaviour_indexes: Names,
    built: Seq<BehaviourOption>,
) -> bool {
    &&& built.len() == configs.len()
    &&& forall|i: int|
        0 <= i < configs.len() ==> option_of(#[trigger] configs[i], behaviour_indexes) == Some(
            built[i],
        )
}

/// The first of `configs` that names no kind of criteria, if there is one.
pub open spec fn first_bad_criteria(configs: Seq<CriteriaConfig>, i: int) -> bool {
    &&& 0 <= i < configs.len()
    &&& criteria_of(configs[i]) is None
    &&& forall|k: int| 0 <= k < i ==> criteria_of(#[trigger] configs[k]) is Some
}

/// The first of `configs` that names a behaviour that is not there, if
/// there is one.
pub open spec fn first_bad_option(configs: Seq<OptionConfig>, behaviour_indexes: Names, i: int) -> bool {
    &&& 0 <= i < configs.len()
    &&& option_of(configs[i], behaviour_indexes) is None
    &&& forall|k: int| 0 <= k < i ==> option_of(#[trigger] configs[k], behaviour_indexes) is Some
}

/// The criteria that `behaviour` asks for, or the place of the first that
/// names no kind of criteria.
pub fn build_criteria(behaviour: &BehaviourConfig) -> (r: Result<Vec<EvaluationCriteria>, usize>)
    ensures
        r is Ok <==> forall|k: int|
            0 <= k < behaviour.criteria@.len() ==> criteria_of(#[trigger] behaviour.criteria@[k])
                is Some,
        r matches Ok(built) ==> criteria_built(behaviour.criteria@, built@),
        r matches Err(i) ==> first_bad_criteria(behaviour.criteria@, i as int),
{
    let mut built: Vec<EvaluationCriteria> = Vec::new();
    let n: usize = behaviour.criteria.len();
    let mut i: usize = 0;
    while i < n
        invariant
            n == behaviour.criteria@.len(),
            i <= n,
            built@.len() == i,
            forall|k: int|
                0 <= k < i ==> criteria_of(#[trigger] behaviour.criteria@[k]) == Some(built@[k]),
        decreases n - i,
    {
        let config: &CriteriaConfig = &behaviour.criteria[i];
        match Criteria::from_name(&config.criteria) {
            Some(criteria) => {
                built.push(
                    EvaluationCriteria {
                        criteria,
                        offset: match config.offset {
                            Some(offset) => offset,
                            None => 0,
                        },
                        weight: match config.weight {
                            Some(weight) => weight,
                            None => 1000,
                        },
                    },
                );
            },
            None => {
                return Err(i);
            },
        }
        i += 1;
    }
    Ok(built)
}

/// The options that `behaviour` asks for, or the place of the first that
/// names a behaviour that is not among `behaviour_indexes`.
pub fn build_options(behaviour: &BehaviourConfig, behaviour_indexes: &Vec<Named>) -> (r: Result<
    Vec<BehaviourOption>,
    usize,
>)
    ensures
        r is Ok <==> forall|k: int|
            0 <= k < behaviour.options@.len() ==> option_of(
                #[trigger] behaviour.options@[k],
                names_of(behaviour_indexes@),
            ) is Some,
        r matches Ok(built) ==> options_built(
            behaviour.options@,
            names_of(behaviour_indexes@),
            built@,
        ),
        r matches Err(i) ==> first_bad_option(
            behaviour.options@,
            names_of(behaviour_indexes@),
            i as int,
        ),
{
    let mut built: Vec<BehaviourOption> = Vec::new();
    let n: usize = behaviour.options.len();
    let mut i: usize = 0;
    while i < n
        invariant
            n == behaviour.options@.len(),
            i <= n,
            built@.len() == i,
            forall|k: int|
                0 <= k < i ==> option_of(
                    #[trigger] behaviour.options@[k],
                    names_of(behaviour_indexes@),
                ) == Some(built@[k]),
        decreases n - i,
    {
        let config: &OptionConfig = &behaviour.options[i];
        match find(behaviour_indexes, &config.behaviour) {
            Some(behaviour_index) => {
                built.push(
                    BehaviourOption {
                        behaviour_index,
                        high: match config.high {
                            Some(high) => high,
                            None => i32::MAX,
                        },
                        low: match config.low {
                            Some(low) => low,
                            None => i32::MIN,
                        },
                    },
                );
            },
            None => {
                return Err(i);
            },
        }
        i += 1;
    }
    Ok(built)
}

/// Whether `built` is what the behaviour `config` asks for: its action is
/// the place that the action's name stands for, and its criteria and options
/// are those that the configuration lists.
pub open spec fn behaviour_built(
    config: BehaviourConfig,
    action_indexes: Names,
    behaviour_indexes: Names,
    built: Behaviour,
) -> bool {
    &&& built.first_eval == config.first_eval
    &&& lookup(action_indexes, config.action@) == Some(built.action)
    &&& criteria_built(config.criteria@, built.criteria@)
    &&& options_built(config.options@, behaviour_indexes, built.options@)
}

/// Whether `error` says what is first found wrong with the behaviour
/// `config`, which stands in the place `place`: its action is looked for
/// first, its criteria next and its options last.
pub open spec fn behaviour_fails(
    config: BehaviourConfig,
    place: usize,
    action_indexes: Names,
    behaviour_indexes: Names,
    error: AiError,
) -> bool {
    match error {
        AiError::ActionNotFound { behaviour } => behaviour == place && lookup(
            action_indexes,
            config.action@,
        ) is None,
        AiError::UnknownCriteria { behaviour, criteria } => behaviour == place && lookup(
            action_indexes,
            config.action@,
        ) is Some && first_bad_criteria(config.criteria@, criteria as int),
        AiError::BehaviourNotFound { behaviour, option } => behaviour == place && lookup(
            action_indexes,
            config.action@,
        ) is Some && (forall|k: int|
            0 <= k < config.criteria@.len() ==> criteria_of(#[trigger] config.criteria@[k]) is Some)
            && first_bad_option(config.options@, behaviour_indexes, option as int),
        AiError::UnknownAction { .. } => false,
    }
}

/// The behaviour that `config`, which stands in the place `place`, asks
/// for, or what is first found wrong with it.
pub fn build_behaviour(
    action_indexes: &Vec<Named>,
    behaviour_indexes: &Vec<Named>,
    config: &BehaviourConfig,
    place: usize,
) -> (r: Result<Behaviour, AiError>)
    ensures
        r matches Ok(built) ==> behaviour_built(
            *config,
            names_of(action_indexes@),
            names_of(behaviour_indexes@),
            built,
        ),
        r matches Err(error) ==> behaviour_fails(
            *config,
            place,
            names_of(action_indexes@),
            names_of(behaviour_indexes@),
            error,
        ),
        r is Err <==> behaviour_fails_somehow(
            *config,
            names_of(action_indexes@),
            names_of(behaviour_indexes@),
        ),
{
    let action: usize = match find(action_indexes, &config.action) {
        Some(action) => action,
        None => {
            return Err(AiError::ActionNotFound { behaviour: place });
        },
    };
    let criteria: Vec<EvaluationCriteria> = match build_criteria(config) {
        Ok(criteria) => criteria,
        Err(i) => {
            return Err(AiError::UnknownCriteria { behaviour: place, criteria: i });
        },
    };
    let options: Vec<BehaviourOption> = match build_options(config, behaviour_indexes) {
        Ok(options) => options,
        Err(i) => {
            return Err(AiError::BehaviourNotFound { behaviour: place, option: i });
        },
    };
    Ok(Behaviour { first_eval: config.first_eval, action, criteria, options })
}

/// Whether something is wrong with the behaviour `config`: its action is
/// not there, one of its criteria names no kind, or one of its options names a
/// behaviour that is not there.
pub open spec fn behaviour_fails_somehow(
    config: BehaviourConfig,
    action_indexes: Names,
    behaviour_indexes: Names,
) -> bool {
    ||| lookup(action_indexes, config.action@) is None
    ||| exists|k: int| 0 <= k < config.criteria@.len() && criteria_of(#[trigger] config.criteria@[k]) is None
    ||| exists|k: int|
        0 <= k < config.options@.len() && option_of(#[trigger] config.options@[k], behaviour_indexes)
            is None
}

/// The names of the actions of `config` and, after them, of its behaviours,
/// each with its place in its own list.
pub open spec fn action_names(config: AiConfig) -> Names {
    Seq::new(
        config.actions@.len() + config.behaviour@.len(),
        |i: int|
            if i < config.actions@.len() {
                (config.actions@[i].name@, i as usize)
            } else {
                (
                    config.behaviour@[i - config.actions@.len()].name@,
                    (i - config.actions@.len()) as usize,
                )
            },
    )
}

/// Whether `data` is what the configuration `config` of the name `name`
/// asks for. The names of the actions and, after them, those of the
/// behaviours are entered with their places in the list of action names; the
/// list of behaviour names stays empty.
pub open spec fn data_built(name: Seq<char>, config: AiConfig, data: AiData) -> bool {
    &&& data.name@ == name
    &&& names_of(data.action_indexes@) == action_names(config)
    &&& data.behaviour_indexes@.len() == 0
    &&& data.actions@.len() == config.actions@.len()
    &&& forall|i: int|
        0 <= i < config.actions@.len() ==> action_of(#[trigger] config.actions@[i]) == Some(
            data.actions@[i],
        )
    &&& data.behaviours@.len() == config.behaviour@.len()
    &&& forall|i: int|
        0 <= i < config.behaviour@.len() ==> behaviour_built(
            #[trigger] config.behaviour@[i],
            action_names(config),
            Seq::empty(),
            data.behaviours@[i],
        )
}

/// The place of the behaviour that `error` speaks of.
pub open spec fn failing_behaviour(error: AiError) -> usize {
    match error {
        AiError::UnknownAction { action } => 0,
        AiError::ActionNotFound { behaviour } => behaviour,
        AiError::UnknownCriteria { behaviour, criteria } => behaviour,
        AiError::BehaviourNotFound { behaviour, option } => behaviour,
    }
}

/// Whether `error` says what is first found wrong with `config`: its
/// actions are looked at first, then its behaviours, each in their order.
pub open spec fn config_fails(config: AiConfig, error: AiError) -> bool {
    match error {
        AiError::UnknownAction { action } => action < config.actions@.len() && action_of(
            config.actions@[action as int],
        ) is None && forall|k: int|
            0 <= k < action ==> action_of(#[trigger] config.actions@[k]) is Some,
        _ => {
            &&& forall|k: int|
                0 <= k < config.actions@.len() ==> action_of(#[trigger] config.actions@[k]) is Some
            &&& failing_behaviour(error) < config.behaviour@.len()
            &&& behaviour_fails(
                config.behaviour@[failing_behaviour(error) as int],
                failing_behaviour(error),
                action_names(config),
                Seq::empty(),
                error,
            )
            &&& forall|k: int|
                0 <= k < failing_behaviour(error) ==> !behaviour_fails_somehow(
                    #[trigger] config.behaviour@[k],
                    action_names(config),
                    Seq::empty(),
                )
        },
    }
}

/// Whether something is wrong with `config`.
pub open spec fn config_fails_somehow(config: AiConfig) -> bool {
    ||| exists|k: int| 0 <= k < config.actions@.len() && action_of(#[trigger] config.actions@[k]) is None
    ||| exists|k: int|
        0 <= k < config.behaviour@.len() && behaviour_fails_somehow(
            #[trigger] config.behaviour@[k],
            action_names(config),
            Seq::empty(),
        )
}

/// The data that the configuration `config` of the name `name` asks for, or
/// what is first found wrong with it.
pub fn parse_config(name: &String, config: &AiConfig) -> (r: Result<AiData, AiError>)
    ensures
        r matches Ok(data) ==> data_built(name@, *config, data),
        r matches Err(error) ==> config_fails(*config, error),
        r is Err <==> config_fails_somehow(*config),
{
    let mut action_indexes: Vec<Named> = Vec::new();
    let mut actions: Vec<Action> = Vec::new();
    let count: usize = config.actions.len();
    let mut i: usize = 0;
    while i < count
        invariant
            count == config.actions@.len(),
            i <= count,
            actions@.len() == i,
            action_indexes@.len() == i,
            forall|k: int|
                0 <= k < i ==> action_of(#[trigger] config.actions@[k]) == Some(actions@[k]),
            forall|k: int|
                0 <= k < i ==> (#[trigger] action_indexes@[k]).name@ == config.actions@[k].name@
                    && action_indexes@[k].index == k,
        decreases count - i,
    {
        let action_config: &ActionConfig = &config.actions[i];
        action_indexes.push(Named { name: action_config.name.clone(), index: i });
        if !names_action(action_config) {
            return Err(AiError::UnknownAction { action: i });
        }
        actions.push(build_action(action_config));
        i += 1;
    }
    let behaviour_count: usize = config.behaviour.len();
    let mut i: usize = 0;
    while i < behaviour_count
        invariant
            count == config.actions@.len(),
            behaviour_count == config.behaviour@.len(),
            i <= behaviour_count,
            action_indexes@.len() == count + i,
            forall|k: int|
                0 <= k < count ==> (#[trigger] action_indexes@[k]).name@ == config.actions@[k].name@
                    && action_indexes@[k].index == k,
            forall|j: int|
                count <= j < count + i ==> (#[trigger] action_indexes@[j]).name@
                    == config.behaviour@[j - count].name@ && action_indexes@[j].index == j - count,
        decreases behaviour_count - i,
    {
        action_indexes.push(Named { name: config.behaviour[i].name.clone(), index: i });
        i += 1;
    }
    assert(names_of(action_indexes@) =~= action_names(*config));
    let behaviour_indexes: Vec<Named> = Vec::new();
    assert(names_of(behaviour_indexes@) =~= Seq::empty());
    let mut behaviours: Vec<Behaviour> = Vec::new();
    let mut i: usize = 0;
    while i < behaviour_count
        invariant
            behaviour_count == config.behaviour@.len(),
            i <= behaviour_count,
            behaviours@.len() == i,
            behaviour_indexes@.len() == 0,
            names_of(behaviour_indexes@) == Seq::<(Seq<char>, usize)>::empty(),
            names_of(action_indexes@) == action_names(*config),
            forall|k: int|
                0 <= k < config.actions@.len() ==> action_of(#[trigger] config.actions@[k]) is Some,
            forall|k: int|
                0 <= k < i ==> behaviour_built(
                    #[trigger] config.behaviour@[k],
                    action_names(*config),
                    Seq::empty(),
                    behaviours@[k],
                ),
            forall|k: int|
                0 <= k < i ==> !behaviour_fails_somehow(
                    #[trigger] config.behaviour@[k],
                    action_names(*config),
                    Seq::empty(),
                ),
        decreases behaviour_count - i,
    {
        match build_behaviour(&action_indexes, &behaviour_indexes, &config.behaviour[i], i) {
            Ok(behaviour) => {
                behaviours.push(behaviour);
            },
            Err(error) => {
                assert(failing_behaviour(error) == i);
                return Err(error);
            },
        }
        i += 1;
    }
    Ok(AiData { name: name.clone(), behaviour_indexes, action_indexes, actions, behaviours })
}

} // verus!
