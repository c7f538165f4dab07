//! Which settings the UI exposes, and how to render each one.
use vstd::prelude::*;

verus! {

/// How a setting is shown and edited.
#[derive(Debug, Clone)]
pub enum Kind {
    /// A rate, between two bounds in tenths.
    Float { min_tenths: i64, max_tenths: i64 },
    Int { min: i64, max: i64 },
    Bool,
    Choice(Vec<&'static str>),
    /// Quoted string: the ini holds `ServerName="…"`, the UI edits what's inside.
    Text,
    /// Quoted string that must not be shown by default (passwords).
    Secret,
    /// Written back exactly as typed — for values that are neither quoted nor scalar,
    /// like `CrossplayPlatforms=(Steam,Xbox,PS5,Mac)`.
    Raw,
}

/// A setting that the UI exposes.
#[derive(Debug, Clone)]
pub struct Spec {
    pub key: &'static str,
    pub label: &'static str,
    pub kind: Kind,
    pub note: Option<&'static str>,
}

/// Settings that belong together.
#[derive(Debug)]
pub struct Group {
    pub title: &'static str,
    pub specs: Vec<Spec>,
}

pub enum KindView {
    Float { min_tenths: int, max_tenths: int },
    Int { min: int, max: int },
    Bool,
    Choice(Seq<Seq<char>>),
    Text,
    Secret,
    Raw,
}

pub struct SpecView {
    pub key: Seq<char>,
    pub label: Seq<char>,
    pub kind: KindView,
    pub note: Option<Seq<char>>,
}

pub struct GroupView {
    pub title: Seq<char>,
    pub specs: Seq<SpecView>,
}

impl View for Kind {
    type V = KindView;

    open spec fn view(&self) -> KindView {
        match self {
            Kind::Float { min_tenths, max_tenths } => KindView::Float {
                min_tenths: *min_tenths as int,
                max_tenths: *max_tenths as int,
            },
            Kind::Int { min, max } => KindView::Int { min: *min as int, max: *max as int },
            Kind::Bool => KindView::Bool,
            Kind::Choice(options) => KindView::Choice(
                options@.map_values(|s: &'static str| s@),
            ),
            Kind::Text => KindView::Text,
            Kind::Secret => KindView::Secret,
            Kind::Raw => KindView::Raw,
        }
    }
}

impl View for Spec {
    type V = SpecView;

    open spec fn view(&self) -> SpecView {
        SpecView {
            key: self.key@,
            label: self.label@,
            kind: self.kind@,
            note: match self.note {
                Some(s) => Some(s@),
                None => None,
            },
        }
    }
}

pub open spec fn spec_views(v: Seq<Spec>) -> Seq<SpecView> {
    v.map_values(|s: Spec| s@)
}

impl View for Group {
    type V = GroupView;

    open spec fn view(&self) -> GroupView {
        GroupView { title: self.title@, specs: spec_views(self.specs@) }
    }
}

pub open spec fn group_views(v: Seq<Group>) -> Seq<GroupView> {
    v.map_values(|g: Group| g@)
}

// ---------------------------------------------------------------------------
// The settings
// ---------------------------------------------------------------------------
/// Time and saves.
pub open spec fn time_table() -> Seq<SpecView> {
    seq![
        SpecView {
            key: "DayTimeSpeedRate"@,
            label: "昼の長さ"@,
            kind: KindView::Float { min_tenths: 1, max_tenths: 100 },
            note: Some("大きいほど昼が速く過ぎる（=昼が短い）。0.5 で昼が2倍長い"@),
        },
        SpecView {
            key: "NightTimeSpeedRate"@,
            label: "夜の長さ"@,
            kind: KindView::Float { min_tenths: 1, max_tenths: 100 },
            note: Some("大きいほど夜が速く過ぎる（=夜が短い）。夜を飛ばしたいなら上げる"@),
        },
        SpecView {
            key: "AutoSaveSpan"@,
            label: "自動セーブ間隔(秒)"@,
            kind: KindView::Float { min_tenths: 100, max_tenths: 6000 },
            note: None,
        },
        SpecView {
            key: "bIsUseBackupSaveData"@,
            label: "セーブのバックアップを取る"@,
            kind: KindView::Bool,
            note: None,
        },
    ]
}

fn time() -> (r: Vec<Spec>)
    ensures
        spec_views(r@) == time_table(),
{
    let r = vec![
        Spec {
            key: "DayTimeSpeedRate",
            label: "昼の長さ",
            kind: Kind::Float { min_tenths: 1, max_tenths: 100 },
            note: Some("大きいほど昼が速く過ぎる（=昼が短い）。0.5 で昼が2倍長い"),
        },
        Spec {
            key: "NightTimeSpeedRate",
            label: "夜の長さ",
            kind: Kind::Float { min_tenths: 1, max_tenths: 100 },
            note: Some("大きいほど夜が速く過ぎる（=夜が短い）。夜を飛ばしたいなら上げる"),
        },
        Spec {
            key: "AutoSaveSpan",
            label: "自動セーブ間隔(秒)",
            kind: Kind::Float { min_tenths: 100, max_tenths: 6000 },
            note: None,
        },
        Spec {
            key: "bIsUseBackupSaveData",
            label: "セーブのバックアップを取る",
            kind: Kind::Bool,
            note: None,
        },
    ];

    assert(spec_views(r@) =~= time_table());
    r
}

/// Difficulty.
pub open spec fn difficulty_table() -> Seq<SpecView> {
    seq![
        SpecView {
            key: "Difficulty"@,
            label: "難易度プリセット"@,
            kind: KindView::Choice(seq!["None"@, "Casual"@, "Normal"@, "Hard"@]),
            note: Some("None 以外にすると個別のレート設定より優先される"@),
        },
        SpecView {
            key: "RandomizerType"@,
            label: "ランダマイザ"@,
            kind: KindView::Choice(seq!["None"@, "Region"@, "All"@]),
            note: Some("パルの出現をランダム化する。変更後は新規ワールド推奨"@),
        },
        SpecView {
            key: "RandomizerSeed"@,
            label: "ランダマイザのシード"@,
            kind: KindView::Text,
            note: None,
        },
        SpecView {
            key: "bIsRandomizerPalLevelRandom"@,
            label: "パルのレベルもランダムにする"@,
            kind: KindView::Bool,
            note: None,
        },
        SpecView {
            key: "bHardcore"@,
            label: "ハードコア"@,
            kind: KindView::Bool,
            note: None,
        },
        SpecView {
            key: "bPalLost"@,
            label: "死亡時にパルをロストする"@,
            kind: KindView::Bool,
            note: None,
        },
        SpecView {
            key: "bCharacterRecreateInHardcore"@,
            label: "ハードコアで死亡したらキャラ再作成"@,
            kind: KindView::Bool,
            note: None,
        },
    ]
}

fn difficulty() -> (r: Vec<Spec>)
    ensures
        spec_views(r@) == difficulty_table(),
{
    let r = vec![
        Spec {
            key: "Difficulty",
            label: "難易度プリセット",
            kind: Kind::Choice(vec!["None", "Casual", "Normal", "Hard"]),
            note: Some("None 以外にすると個別のレート設定より優先される"),
        },
        Spec {
            key: "RandomizerType",
            label: "ランダマイザ",
            kind: Kind::Choice(vec!["None", "Region", "All"]),
            note: Some("パルの出現をランダム化する。変更後は新規ワールド推奨"),
        },
        Spec {
            key: "RandomizerSeed",
            label: "ランダマイザのシード",
            kind: Kind::Text,
            note: None,
        },
        Spec {
            key: "bIsRandomizerPalLevelRandom",
            label: "パルのレベルもランダムにする",
            kind: Kind::Bool,
            note: None,
        },
        Spec {
            key: "bHardcore",
            label: "ハードコア",
            kind: Kind::Bool,
            note: None,
        },
        Spec {
            key: "bPalLost",
            label: "死亡時にパルをロストする",
            kind: Kind::Bool,
            note: None,
        },
        Spec {
            key: "bCharacterRecreateInHardcore",
            label: "ハードコアで死亡したらキャラ再作成",
            kind: Kind::Bool,
            note: None,
        },
    ];

    assert(r@[0]@.kind->Choice_0 =~= difficulty_table()[0].kind->Choice_0);
    assert(r@[1]@.kind->Choice_0 =~= difficulty_table()[1].kind->Choice_0);
    assert(spec_views(r@) =~= difficulty_table());
    r
}

/// Rates.
pub open spec fn rates_table() -> Seq<SpecView> {
    seq![
        SpecView {
            key: "ExpRate"@,
            label: "経験値倍率"@,
            kind: KindView::Float { min_tenths: 1, max_tenths: 200 },
            note: Some("ゲーム内UIの上限は3.0だが、ini経由なら丸められない"@),
        },
        SpecView {
            key: "CollectionDropRate"@,
            label: "採集アイテム量"@,
            kind: KindView::Float { min_tenths: 1, max_tenths: 200 },
            note: None,
        },
        SpecView {
            key: "CollectionObjectHpRate"@,
            label: "採集オブジェクトの耐久"@,
            kind: KindView::Float { min_tenths: 1, max_tenths: 100 },
            note: None,
        },
        SpecView {
            key: "CollectionObjectRespawnSpeedRate"@,
            label: "採集物のリスポップ速度"@,
            kind: KindView::Float { min_tenths: 1, max_tenths: 50 },
            note: None,
        },
        SpecView {
            key: "EnemyDropItemRate"@,
            label: "パルからのドロップ量"@,
            kind: KindView::Float { min_tenths: 1, max_tenths: 200 },
            note: None,
        },
        SpecView {
            key: "PalCaptureRate"@,
            label: "パル捕獲率"@,
            kind: KindView::Float { min_tenths: 1, max_tenths: 100 },
            note: None,
        },
        SpecView {
            key: "PalSpawnNumRate"@,
            label: "パル出現数"@,
            kind: KindView::Float { min_tenths: 1, max_tenths: 50 },
            note: Some("上げすぎるとサーバーのCPU負荷が上がる"@),
        },
        SpecView {
            key: "WorkSpeedRate"@,
            label: "作業速度"@,
            kind: KindView::Float { min_tenths: 1, max_tenths: 100 },
            note: None,
        },
        SpecView {
            key: "ItemWeightRate"@,
            label: "アイテム重量倍率"@,
            kind: KindView::Float { min_tenths: 0, max_tenths: 50 },
            note: Some("0 で重量無制限"@),
        },
        SpecView {
            key: "EquipmentDurabilityDamageRate"@,
            label: "装備の消耗速度"@,
            kind: KindView::Float { min_tenths: 0, max_tenths: 100 },
            note: Some("0 で装備が壊れない"@),
        },
        SpecView {
            key: "ItemCorruptionMultiplier"@,
            label: "アイテムの腐敗速度"@,
            kind: KindView::Float { min_tenths: 0, max_tenths: 100 },
            note: Some("0 で腐らない"@),
        },
        SpecView {
            key: "MonsterFarmActionSpeedRate"@,
            label: "牧場の生産速度"@,
            kind: KindView::Float { min_tenths: 1, max_tenths: 100 },
            note: None,
        },
        SpecView {
            key: "PalEggDefaultHatchingTime"@,
            label: "卵の孵化時間(時)"@,
            kind: KindView::Float { min_tenths: 0, max_tenths: 720 },
            note: Some("0 で即孵化"@),
        },
    ]
}

fn rates() -> (r: Vec<Spec>)
    ensures
        spec_views(r@) == rates_table(),
{
    let r = vec![
        Spec {
            key: "ExpRate",
            label: "経験値倍率",
            kind: Kind::Float { min_tenths: 1, max_tenths: 200 },
            note: Some("ゲーム内UIの上限は3.0だが、ini経由なら丸められない"),
        },
        Spec {
            key: "CollectionDropRate",
            label: "採集アイテム量",
            kind: Kind::Float { min_tenths: 1, max_tenths: 200 },
            note: None,
        },
        Spec {
            key: "CollectionObjectHpRate",
            label: "採集オブジェクトの耐久",
            kind: Kind::Float { min_tenths: 1, max_tenths: 100 },
            note: None,
        },
        Spec {
            key: "CollectionObjectRespawnSpeedRate",
            label: "採集物のリスポップ速度",
            kind: Kind::Float { min_tenths: 1, max_tenths: 50 },
            note: None,
        },
        Spec {
            key: "EnemyDropItemRate",
            label: "パルからのドロップ量",
            kind: Kind::Float { min_tenths: 1, max_tenths: 200 },
            note: None,
        },
        Spec {
            key: "PalCaptureRate",
            label: "パル捕獲率",
            kind: Kind::Float { min_tenths: 1, max_tenths: 100 },
            note: None,
        },
        Spec {
            key: "PalSpawnNumRate",
            label: "パル出現数",
            kind: Kind::Float { min_tenths: 1, max_tenths: 50 },
            note: Some("上げすぎるとサーバーのCPU負荷が上がる"),
        },
        Spec {
            key: "WorkSpeedRate",
            label: "作業速度",
            kind: Kind::Float { min_tenths: 1, max_tenths: 100 },
            note: None,
        },
        Spec {
            key: "ItemWeightRate",
            label: "アイテム重量倍率",
            kind: Kind::Float { min_tenths: 0, max_tenths: 50 },
            note: Some("0 で重量無制限"),
        },
        Spec {
            key: "EquipmentDurabilityDamageRate",
            label: "装備の消耗速度",
            kind: Kind::Float { min_tenths: 0, max_tenths: 100 },
            note: Some("0 で装備が壊れない"),
        },
        Spec {
            key: "ItemCorruptionMultiplier",
            label: "アイテムの腐敗速度",
            kind: Kind::Float { min_tenths: 0, max_tenths: 100 },
            note: Some("0 で腐らない"),
        },
        Spec {
            key: "MonsterFarmActionSpeedRate",
            label: "牧場の生産速度",
            kind: Kind::Float { min_tenths: 1, max_tenths: 100 },
            note: None,
        },
        Spec {
            key: "PalEggDefaultHatchingTime",
            label: "卵の孵化時間(時)",
            kind: Kind::Float { min_tenths: 0, max_tenths: 720 },
            note: Some("0 で即孵化"),
        },
    ];

    assert(spec_views(r@) =~= rates_table());
    r
}

/// What players and pals need.
pub open spec fn condition_table() -> Seq<SpecView> {
    seq![
        SpecView {
            key: "PlayerStomachDecreaceRate"@,
            label: "プレイヤーの空腹速度"@,
            kind: KindView::Float { min_tenths: 0, max_tenths: 50 },
            note: None,
        },
        SpecView {
            key: "PlayerStaminaDecreaceRate"@,
            label: "プレイヤーのスタミナ消費"@,
            kind: KindView::Float { min_tenths: 0, max_tenths: 50 },
            note: None,
        },
        SpecView {
            key: "PlayerAutoHPRegeneRate"@,
            label: "プレイヤーのHP自動回復"@,
            kind: KindView::Float { min_tenths: 1, max_tenths: 100 },
            note: None,
        },
        SpecView {
            key: "PlayerAutoHpRegeneRateInSleep"@,
            label: "プレイヤーの睡眠時HP回復"@,
            kind: KindView::Float { min_tenths: 1, max_tenths: 100 },
            note: None,
        },
        SpecView {
            key: "PalStomachDecreaceRate"@,
            label: "パルの空腹速度"@,
            kind: KindView::Float { min_tenths: 0, max_tenths: 50 },
            note: None,
        },
        SpecView {
            key: "PalStaminaDecreaceRate"@,
            label: "パルのスタミナ消費"@,
            kind: KindView::Float { min_tenths: 0, max_tenths: 50 },
            note: None,
        },
        SpecView {
            key: "PalAutoHPRegeneRate"@,
            label: "パルのHP自動回復"@,
            kind: KindView::Float { min_tenths: 1, max_tenths: 100 },
            note: None,
        },
        SpecView {
            key: "PalAutoHpRegeneRateInSleep"@,
            label: "パルの拠点でのHP回復"@,
            kind: KindView::Float { min_tenths: 1, max_tenths: 100 },
            note: None,
        },
    ]
}

fn condition() -> (r: Vec<Spec>)
    ensures
        spec_views(r@) == condition_table(),
{
    let r = vec![
        Spec {
            key: "PlayerStomachDecreaceRate",
            label: "プレイヤーの空腹速度",
            kind: Kind::Float { min_tenths: 0, max_tenths: 50 },
            note: None,
        },
        Spec {
            key: "PlayerStaminaDecreaceRate",
            label: "プレイヤーのスタミナ消費",
            kind: Kind::Float { min_tenths: 0, max_tenths: 50 },
            note: None,
        },
        Spec {
            key: "PlayerAutoHPRegeneRate",
            label: "プレイヤーのHP自動回復",
            kind: Kind::Float { min_tenths: 1, max_tenths: 100 },
            note: None,
        },
        Spec {
            key: "PlayerAutoHpRegeneRateInSleep",
            label: "プレイヤーの睡眠時HP回復",
            kind: Kind::Float { min_tenths: 1, max_tenths: 100 },
            note: None,
        },
        Spec {
            key: "PalStomachDecreaceRate",
            label: "パルの空腹速度",
            kind: Kind::Float { min_tenths: 0, max_tenths: 50 },
            note: None,
        },
        Spec {
            key: "PalStaminaDecreaceRate",
            label: "パルのスタミナ消費",
            kind: Kind::Float { min_tenths: 0, max_tenths: 50 },
            note: None,
        },
        Spec {
            key: "PalAutoHPRegeneRate",
            label: "パルのHP自動回復",
            kind: Kind::Float { min_tenths: 1, max_tenths: 100 },
            note: None,
        },
        Spec {
            key: "PalAutoHpRegeneRateInSleep",
            label: "パルの拠点でのHP回復",
            kind: Kind::Float { min_tenths: 1, max_tenths: 100 },
            note: None,
        },
    ];

    assert(spec_views(r@) =~= condition_table());
    r
}

/// Combat.
pub open spec fn combat_table() -> Seq<SpecView> {
    seq![
        SpecView {
            key: "PalDamageRateAttack"@,
            label: "パルの与ダメージ"@,
            kind: KindView::Float { min_tenths: 1, max_tenths: 50 },
            note: None,
        },
        SpecView {
            key: "PalDamageRateDefense"@,
            label: "パルの被ダメージ"@,
            kind: KindView::Float { min_tenths: 1, max_tenths: 50 },
            note: None,
        },
        SpecView {
            key: "PlayerDamageRateAttack"@,
            label: "プレイヤーの与ダメージ"@,
            kind: KindView::Float { min_tenths: 1, max_tenths: 50 },
            note: None,
        },
        SpecView {
            key: "PlayerDamageRateDefense"@,
            label: "プレイヤーの被ダメージ"@,
            kind: KindView::Float { min_tenths: 1, max_tenths: 50 },
            note: None,
        },
        SpecView {
            key: "bEnableInvaderEnemy"@,
            label: "拠点への襲撃を有効にする"@,
            kind: KindView::Bool,
            note: None,
        },
        SpecView {
            key: "EnablePredatorBossPal"@,
            label: "捕食者ボスパルを出現させる"@,
            kind: KindView::Bool,
            note: None,
        },
        SpecView {
            key: "bIsPvP"@,
            label: "PvPを有効にする"@,
            kind: KindView::Bool,
            note: None,
        },
        SpecView {
            key: "bEnablePlayerToPlayerDamage"@,
            label: "プレイヤー間のダメージ"@,
            kind: KindView::Bool,
            note: None,
        },
        SpecView {
            key: "bEnableFriendlyFire"@,
            label: "フレンドリーファイア"@,
            kind: KindView::Bool,
            note: None,
        },
        SpecView {
            key: "bAdditionalDropItemWhenPlayerKillingInPvPMode"@,
            label: "PvPキル時に追加ドロップ"@,
            kind: KindView::Bool,
            note: None,
        },
        SpecView {
            key: "AdditionalDropItemNumWhenPlayerKillingInPvPMode"@,
            label: "PvPキル時の追加ドロップ数"@,
            kind: KindView::Int { min: 0, max: 10 },
            note: None,
        },
        SpecView {
            key: "bEnableAimAssistPad"@,
            label: "エイムアシスト(パッド)"@,
            kind: KindView::Bool,
            note: None,
        },
        SpecView {
            key: "bEnableAimAssistKeyboard"@,
            label: "エイムアシスト(キーボード)"@,
            kind: KindView::Bool,
            note: None,
        },
    ]
}

fn combat() -> (r: Vec<Spec>)
    ensures
        spec_views(r@) == combat_table(),
{
    let r = vec![
        Spec {
            key: "PalDamageRateAttack",
            label: "パルの与ダメージ",
            kind: Kind::Float { min_tenths: 1, max_tenths: 50 },
            note: None,
        },
        Spec {
            key: "PalDamageRateDefense",
            label: "パルの被ダメージ",
            kind: Kind::Float { min_tenths: 1, max_tenths: 50 },
            note: None,
        },
        Spec {
            key: "PlayerDamageRateAttack",
            label: "プレイヤーの与ダメージ",
            kind: Kind::Float { min_tenths: 1, max_tenths: 50 },
            note: None,
        },
        Spec {
            key: "PlayerDamageRateDefense",
            label: "プレイヤーの被ダメージ",
            kind: Kind::Float { min_tenths: 1, max_tenths: 50 },
            note: None,
        },
        Spec {
            key: "bEnableInvaderEnemy",
            label: "拠点への襲撃を有効にする",
            kind: Kind::Bool,
            note: None,
        },
        Spec {
            key: "EnablePredatorBossPal",
            label: "捕食者ボスパルを出現させる",
            kind: Kind::Bool,
            note: None,
        },
        Spec {
            key: "bIsPvP",
            label: "PvPを有効にする",
            kind: Kind::Bool,
            note: None,
        },
        Spec {
            key: "bEnablePlayerToPlayerDamage",
            label: "プレイヤー間のダメージ",
            kind: Kind::Bool,
            note: None,
        },
        Spec {
            key: "bEnableFriendlyFire",
            label: "フレンドリーファイア",
            kind: Kind::Bool,
            note: None,
        },
        Spec {
            key: "bAdditionalDropItemWhenPlayerKillingInPvPMode",
            label: "PvPキル時に追加ドロップ",
            kind: Kind::Bool,
            note: None,
        },
        Spec {
            key: "AdditionalDropItemNumWhenPlayerKillingInPvPMode",
            label: "PvPキル時の追加ドロップ数",
            kind: Kind::Int { min: 0, max: 10 },
            note: None,
        },
        Spec {
            key: "bEnableAimAssistPad",
            label: "エイムアシスト(パッド)",
            kind: Kind::Bool,
            note: None,
        },
        Spec {
            key: "bEnableAimAssistKeyboard",
            label: "エイムアシスト(キーボード)",
            kind: Kind::Bool,
            note: None,
        },
    ];

    assert(spec_views(r@) =~= combat_table());
    r
}

/// Bases and building.
pub open spec fn base_table() -> Seq<SpecView> {
    seq![
        SpecView {
            key: "BaseCampWorkerMaxNum"@,
            label: "拠点で働けるパルの数"@,
            kind: KindView::Int { min: 1, max: 30 },
            note: Some("ゲーム内UIの上限は20。20超も設定は通るが実際に配置できるかは未検証。1体ごとにAIが動くのでCPU負荷に直結する"@),
        },
        SpecView {
            key: "BaseCampMaxNum"@,
            label: "拠点の総数上限(サーバー全体)"@,
            kind: KindView::Int { min: 1, max: 256 },
            note: None,
        },
        SpecView {
            key: "BaseCampMaxNumInGuild"@,
            label: "ギルドが持てる拠点の数"@,
            kind: KindView::Int { min: 1, max: 10 },
            note: None,
        },
        SpecView {
            key: "BuildObjectHpRate"@,
            label: "建築物の耐久"@,
            kind: KindView::Float { min_tenths: 1, max_tenths: 100 },
            note: None,
        },
        SpecView {
            key: "BuildObjectDamageRate"@,
            label: "建築物への被ダメージ"@,
            kind: KindView::Float { min_tenths: 0, max_tenths: 100 },
            note: None,
        },
        SpecView {
            key: "BuildObjectDeteriorationDamageRate"@,
            label: "建築物の劣化速度"@,
            kind: KindView::Float { min_tenths: 0, max_tenths: 100 },
            note: Some("0 で劣化しない"@),
        },
        SpecView {
            key: "MaxBuildingLimitNum"@,
            label: "建築数の上限"@,
            kind: KindView::Int { min: 0, max: 50000 },
            note: Some("0 で無制限"@),
        },
        SpecView {
            key: "bBuildAreaLimit"@,
            label: "建築範囲の制限"@,
            kind: KindView::Bool,
            note: None,
        },
        SpecView {
            key: "bEnableDefenseOtherGuildPlayer"@,
            label: "他ギルドの拠点を攻撃可能にする"@,
            kind: KindView::Bool,
            note: None,
        },
        SpecView {
            key: "bInvisibleOtherGuildBaseCampAreaFX"@,
            label: "他ギルドの拠点範囲を非表示"@,
            kind: KindView::Bool,
            note: None,
        },
        SpecView {
            key: "bEnableBuildingPlayerUIdDisplay"@,
            label: "建築物に設置者IDを表示"@,
            kind: KindView::Bool,
            note: None,
        },
        SpecView {
            key: "BuildingNameDisplayCacheTTLSeconds"@,
            label: "建築物名の表示キャッシュ(秒)"@,
            kind: KindView::Int { min: 0, max: 3600 },
            note: None,
        },
    ]
}

fn base() -> (r: Vec<Spec>)
    ensures
        spec_views(r@) == base_table(),
{
    let r = vec![
        Spec {
            key: "BaseCampWorkerMaxNum",
            label: "拠点で働けるパルの数",
            kind: Kind::Int { min: 1, max: 30 },
            note: Some("ゲーム内UIの上限は20。20超も設定は通るが実際に配置できるかは未検証。1体ごとにAIが動くのでCPU負荷に直結する"),
        },
        Spec {
            key: "BaseCampMaxNum",
            label: "拠点の総数上限(サーバー全体)",
            kind: Kind::Int { min: 1, max: 256 },
            note: None,
        },
        Spec {
            key: "BaseCampMaxNumInGuild",
            label: "ギルドが持てる拠点の数",
            kind: Kind::Int { min: 1, max: 10 },
            note: None,
        },
        Spec {
            key: "BuildObjectHpRate",
            label: "建築物の耐久",
            kind: Kind::Float { min_tenths: 1, max_tenths: 100 },
            note: None,
        },
        Spec {
            key: "BuildObjectDamageRate",
            label: "建築物への被ダメージ",
            kind: Kind::Float { min_tenths: 0, max_tenths: 100 },
            note: None,
        },
        Spec {
            key: "BuildObjectDeteriorationDamageRate",
            label: "建築物の劣化速度",
            kind: Kind::Float { min_tenths: 0, max_tenths: 100 },
            note: Some("0 で劣化しない"),
        },
        Spec {
            key: "MaxBuildingLimitNum",
            label: "建築数の上限",
            kind: Kind::Int { min: 0, max: 50000 },
            note: Some("0 で無制限"),
        },
        Spec {
            key: "bBuildAreaLimit",
            label: "建築範囲の制限",
            kind: Kind::Bool,
            note: None,
        },
        Spec {
            key: "bEnableDefenseOtherGuildPlayer",
            label: "他ギルドの拠点を攻撃可能にする",
            kind: Kind::Bool,
            note: None,
        },
        Spec {
            key: "bInvisibleOtherGuildBaseCampAreaFX",
            label: "他ギルドの拠点範囲を非表示",
            kind: Kind::Bool,
            note: None,
        },
        Spec {
            key: "bEnableBuildingPlayerUIdDisplay",
            label: "建築物に設置者IDを表示",
            kind: Kind::Bool,
            note: None,
        },
        Spec {
            key: "BuildingNameDisplayCacheTTLSeconds",
            label: "建築物名の表示キャッシュ(秒)",
            kind: Kind::Int { min: 0, max: 3600 },
            note: None,
        },
    ];

    assert(spec_views(r@) =~= base_table());
    r
}

/// Drops.
pub open spec fn drops_table() -> Seq<SpecView> {
    seq![
        SpecView {
            key: "DropItemMaxNum"@,
            label: "ドロップ品の同時存在上限"@,
            kind: KindView::Int { min: 100, max: 20000 },
            note: Some("ドロップ率を上げるならここも上げないと古い物から消える"@),
        },
        SpecView {
            key: "DropItemAliveMaxHours"@,
            label: "ドロップ品の消滅時間(時)"@,
            kind: KindView::Float { min_tenths: 1, max_tenths: 240 },
            note: None,
        },
        SpecView {
            key: "PhysicsActiveDropItemMaxNum"@,
            label: "物理演算するドロップ品の上限"@,
            kind: KindView::Int { min: -1, max: 1000 },
            note: Some("-1 で無制限"@),
        },
        SpecView {
            key: "DropItemMaxNum_UNKO"@,
            label: "フンの同時存在上限"@,
            kind: KindView::Int { min: 0, max: 1000 },
            note: None,
        },
        SpecView {
            key: "DeathPenalty"@,
            label: "デスペナルティ"@,
            kind: KindView::Choice(seq!["None"@, "Item"@, "ItemAndEquipment"@, "All"@]),
            note: None,
        },
        SpecView {
            key: "bCanPickupOtherGuildDeathPenaltyDrop"@,
            label: "他ギルドの死亡ドロップを拾える"@,
            kind: KindView::Bool,
            note: None,
        },
    ]
}

fn drops() -> (r: Vec<Spec>)
    ensures
        spec_views(r@) == drops_table(),
{
    let r = vec![
        Spec {
            key: "DropItemMaxNum",
            label: "ドロップ品の同時存在上限",
            kind: Kind::Int { min: 100, max: 20000 },
            note: Some("ドロップ率を上げるならここも上げないと古い物から消える"),
        },
        Spec {
            key: "DropItemAliveMaxHours",
            label: "ドロップ品の消滅時間(時)",
            kind: Kind::Float { min_tenths: 1, max_tenths: 240 },
            note: None,
        },
        Spec {
            key: "PhysicsActiveDropItemMaxNum",
            label: "物理演算するドロップ品の上限",
            kind: Kind::Int { min: -1, max: 1000 },
            note: Some("-1 で無制限"),
        },
        Spec {
            key: "DropItemMaxNum_UNKO",
            label: "フンの同時存在上限",
            kind: Kind::Int { min: 0, max: 1000 },
            note: None,
        },
        Spec {
            key: "DeathPenalty",
            label: "デスペナルティ",
            kind: Kind::Choice(vec!["None", "Item", "ItemAndEquipment", "All"]),
            note: None,
        },
        Spec {
            key: "bCanPickupOtherGuildDeathPenaltyDrop",
            label: "他ギルドの死亡ドロップを拾える",
            kind: Kind::Bool,
            note: None,
        },
    ];

    assert(r@[4]@.kind->Choice_0 =~= drops_table()[4].kind->Choice_0);
    assert(spec_views(r@) =~= drops_table());
    r
}

/// Guilds.
pub open spec fn guild_table() -> Seq<SpecView> {
    seq![
        SpecView {
            key: "GuildPlayerMaxNum"@,
            label: "ギルドの人数上限"@,
            kind: KindView::Int { min: 1, max: 100 },
            note: None,
        },
        SpecView {
            key: "bAutoResetGuildNoOnlinePlayers"@,
            label: "無人ギルドを自動解散する"@,
            kind: KindView::Bool,
            note: None,
        },
        SpecView {
            key: "AutoResetGuildTimeNoOnlinePlayers"@,
            label: "自動解散までの時間(時)"@,
            kind: KindView::Float { min_tenths: 10, max_tenths: 7200 },
            note: None,
        },
        SpecView {
            key: "GuildRejoinCooldownMinutes"@,
            label: "ギルド再加入のクールダウン(分)"@,
            kind: KindView::Int { min: 0, max: 1440 },
            note: None,
        },
    ]
}

fn guild() -> (r: Vec<Spec>)
    ensures
        spec_views(r@) == guild_table(),
{
    let r = vec![
        Spec {
            key: "GuildPlayerMaxNum",
            label: "ギルドの人数上限",
            kind: Kind::Int { min: 1, max: 100 },
            note: None,
        },
        Spec {
            key: "bAutoResetGuildNoOnlinePlayers",
            label: "無人ギルドを自動解散する",
            kind: Kind::Bool,
            note: None,
        },
        Spec {
            key: "AutoResetGuildTimeNoOnlinePlayers",
            label: "自動解散までの時間(時)",
            kind: Kind::Float { min_tenths: 10, max_tenths: 7200 },
            note: None,
        },
        Spec {
            key: "GuildRejoinCooldownMinutes",
            label: "ギルド再加入のクールダウン(分)",
            kind: Kind::Int { min: 0, max: 1440 },
            note: None,
        },
    ];

    assert(spec_views(r@) =~= guild_table());
    r
}

/// Rules of the game.
pub open spec fn rules_table() -> Seq<SpecView> {
    seq![
        SpecView {
            key: "bEnableFastTravel"@,
            label: "ファストトラベル"@,
            kind: KindView::Bool,
            note: None,
        },
        SpecView {
            key: "bEnableFastTravelOnlyBaseCamp"@,
            label: "ファストトラベルは拠点のみ"@,
            kind: KindView::Bool,
            note: None,
        },
        SpecView {
            key: "bIsStartLocationSelectByMap"@,
            label: "開始地点をマップから選ぶ"@,
            kind: KindView::Bool,
            note: None,
        },
        SpecView {
            key: "bExistPlayerAfterLogout"@,
            label: "ログアウト後もキャラが残る"@,
            kind: KindView::Bool,
            note: None,
        },
        SpecView {
            key: "bEnableNonLoginPenalty"@,
            label: "未ログインペナルティ"@,
            kind: KindView::Bool,
            note: None,
        },
        SpecView {
            key: "bAllowGlobalPalboxExport"@,
            label: "グローバルパルボックスへの書き出し"@,
            kind: KindView::Bool,
            note: None,
        },
        SpecView {
            key: "bAllowGlobalPalboxImport"@,
            label: "グローバルパルボックスからの取り込み"@,
            kind: KindView::Bool,
            note: None,
        },
        SpecView {
            key: "bAllowEnhanceStat_Health"@,
            label: "ステ振り: HP"@,
            kind: KindView::Bool,
            note: None,
        },
        SpecView {
            key: "bAllowEnhanceStat_Attack"@,
            label: "ステ振り: 攻撃"@,
            kind: KindView::Bool,
            note: None,
        },
        SpecView {
            key: "bAllowEnhanceStat_Stamina"@,
            label: "ステ振り: スタミナ"@,
            kind: KindView::Bool,
            note: None,
        },
        SpecView {
            key: "bAllowEnhanceStat_Weight"@,
            label: "ステ振り: 重量"@,
            kind: KindView::Bool,
            note: None,
        },
        SpecView {
            key: "bAllowEnhanceStat_WorkSpeed"@,
            label: "ステ振り: 作業速度"@,
            kind: KindView::Bool,
            note: None,
        },
        SpecView {
            key: "bActiveUNKO"@,
            label: "UNKO を有効にする"@,
            kind: KindView::Bool,
            note: None,
        },
        SpecView {
            key: "DenyTechnologyList"@,
            label: "禁止する技術のリスト"@,
            kind: KindView::Raw,
            note: Some("技術IDをカンマ区切りで。空なら制限なし"@),
        },
    ]
}

fn rules() -> (r: Vec<Spec>)
    ensures
        spec_views(r@) == rules_table(),
{
    let r = vec![
        Spec {
            key: "bEnableFastTravel",
            label: "ファストトラベル",
            kind: Kind::Bool,
            note: None,
        },
        Spec {
            key: "bEnableFastTravelOnlyBaseCamp",
            label: "ファストトラベルは拠点のみ",
            kind: Kind::Bool,
            note: None,
        },
        Spec {
            key: "bIsStartLocationSelectByMap",
            label: "開始地点をマップから選ぶ",
            kind: Kind::Bool,
            note: None,
        },
        Spec {
            key: "bExistPlayerAfterLogout",
            label: "ログアウト後もキャラが残る",
            kind: Kind::Bool,
            note: None,
        },
        Spec {
            key: "bEnableNonLoginPenalty",
            label: "未ログインペナルティ",
            kind: Kind::Bool,
            note: None,
        },
        Spec {
            key: "bAllowGlobalPalboxExport",
            label: "グローバルパルボックスへの書き出し",
            kind: Kind::Bool,
            note: None,
        },
        Spec {
            key: "bAllowGlobalPalboxImport",
            label: "グローバルパルボックスからの取り込み",
            kind: Kind::Bool,
            note: None,
        },
        Spec {
            key: "bAllowEnhanceStat_Health",
            label: "ステ振り: HP",
            kind: Kind::Bool,
            note: None,
        },
        Spec {
            key: "bAllowEnhanceStat_Attack",
            label: "ステ振り: 攻撃",
            kind: Kind::Bool,
            note: None,
        },
        Spec {
            key: "bAllowEnhanceStat_Stamina",
            label: "ステ振り: スタミナ",
            kind: Kind::Bool,
            note: None,
        },
        Spec {
            key: "bAllowEnhanceStat_Weight",
            label: "ステ振り: 重量",
            kind: Kind::Bool,
            note: None,
        },
        Spec {
            key: "bAllowEnhanceStat_WorkSpeed",
            label: "ステ振り: 作業速度",
            kind: Kind::Bool,
            note: None,
        },
        Spec {
            key: "bActiveUNKO",
            label: "UNKO を有効にする",
            kind: Kind::Bool,
            note: None,
        },
        Spec {
            key: "DenyTechnologyList",
            label: "禁止する技術のリスト",
            kind: Kind::Raw,
            note: Some("技術IDをカンマ区切りで。空なら制限なし"),
        },
    ];

    assert(spec_views(r@) =~= rules_table());
    r
}

/// The server.
pub open spec fn server_table() -> Seq<SpecView> {
    seq![
        SpecView {
            key: "ServerName"@,
            label: "サーバー名"@,
            kind: KindView::Text,
            note: None,
        },
        SpecView {
            key: "ServerDescription"@,
            label: "サーバー説明"@,
            kind: KindView::Text,
            note: None,
        },
        SpecView {
            key: "ServerPlayerMaxNum"@,
            label: "最大プレイヤー数"@,
            kind: KindView::Int { min: 1, max: 32 },
            note: None,
        },
        SpecView {
            key: "CoopPlayerMaxNum"@,
            label: "同一ギルドの同時参加上限"@,
            kind: KindView::Int { min: 1, max: 32 },
            note: None,
        },
        SpecView {
            key: "bIsMultiplay"@,
            label: "マルチプレイ"@,
            kind: KindView::Bool,
            note: Some("専用サーバーでは通常 False のままでよい"@),
        },
        SpecView {
            key: "bShowPlayerList"@,
            label: "プレイヤー一覧を公開する"@,
            kind: KindView::Bool,
            note: None,
        },
        SpecView {
            key: "bIsShowJoinLeftMessage"@,
            label: "参加・退出メッセージを出す"@,
            kind: KindView::Bool,
            note: None,
        },
        SpecView {
            key: "ChatPostLimitPerMinute"@,
            label: "チャットの投稿上限(毎分)"@,
            kind: KindView::Int { min: 1, max: 300 },
            note: None,
        },
        SpecView {
            key: "SupplyDropSpan"@,
            label: "補給物資の間隔(分)"@,
            kind: KindView::Int { min: 0, max: 1440 },
            note: None,
        },
        SpecView {
            key: "bAllowClientMod"@,
            label: "クライアントMODを許可"@,
            kind: KindView::Bool,
            note: None,
        },
        SpecView {
            key: "bUseAuth"@,
            label: "認証を要求する"@,
            kind: KindView::Bool,
            note: None,
        },
        SpecView {
            key: "CrossplayPlatforms"@,
            label: "クロスプレイ対象"@,
            kind: KindView::Raw,
            note: Some("(Steam,Xbox,PS5,Mac) の形式。括弧ごと編集する"@),
        },
        SpecView {
            key: "Region"@,
            label: "リージョン"@,
            kind: KindView::Text,
            note: None,
        },
        SpecView {
            key: "BanListURL"@,
            label: "BANリストのURL"@,
            kind: KindView::Text,
            note: None,
        },
        SpecView {
            key: "LogFormatType"@,
            label: "ログ形式"@,
            kind: KindView::Choice(seq!["Text"@, "Json"@]),
            note: None,
        },
        SpecView {
            key: "ServerReplicatePawnCullDistance"@,
            label: "同期する距離"@,
            kind: KindView::Float { min_tenths: 50000, max_tenths: 300000 },
            note: Some("下げるとCPU負荷が減るが、遠くのパルが動かなくなる"@),
        },
        SpecView {
            key: "ItemContainerForceMarkDirtyInterval"@,
            label: "コンテナ同期の間隔(秒)"@,
            kind: KindView::Float { min_tenths: 1, max_tenths: 100 },
            note: None,
        },
        SpecView {
            key: "PlayerDataPalStorageUpdateCheckTickInterval"@,
            label: "パルボックス同期の間隔(秒)"@,
            kind: KindView::Float { min_tenths: 1, max_tenths: 100 },
            note: None,
        },
        SpecView {
            key: "AutoTransferMasterCheckIntervalSeconds"@,
            label: "ギルド主の自動移譲チェック間隔(秒)"@,
            kind: KindView::Float { min_tenths: 600, max_tenths: 864000 },
            note: None,
        },
        SpecView {
            key: "AutoTransferMasterThresholdDays"@,
            label: "ギルド主の自動移譲までの日数"@,
            kind: KindView::Int { min: 1, max: 365 },
            note: None,
        },
    ]
}

fn server() -> (r: Vec<Spec>)
    ensures
        spec_views(r@) == server_table(),
{
    let r = vec![
        Spec {
            key: "ServerName",
            label: "サーバー名",
            kind: Kind::Text,
            note: None,
        },
        Spec {
            key: "ServerDescription",
            label: "サーバー説明",
            kind: Kind::Text,
            note: None,
        },
        Spec {
            key: "ServerPlayerMaxNum",
            label: "最大プレイヤー数",
            kind: Kind::Int { min: 1, max: 32 },
            note: None,
        },
        Spec {
            key: "CoopPlayerMaxNum",
            label: "同一ギルドの同時参加上限",
            kind: Kind::Int { min: 1, max: 32 },
            note: None,
        },
        Spec {
            key: "bIsMultiplay",
            label: "マルチプレイ",
            kind: Kind::Bool,
            note: Some("専用サーバーでは通常 False のままでよい"),
        },
        Spec {
            key: "bShowPlayerList",
            label: "プレイヤー一覧を公開する",
            kind: Kind::Bool,
            note: None,
        },
        Spec {
            key: "bIsShowJoinLeftMessage",
            label: "参加・退出メッセージを出す",
            kind: Kind::Bool,
            note: None,
        },
        Spec {
            key: "ChatPostLimitPerMinute",
            label: "チャットの投稿上限(毎分)",
            kind: Kind::Int { min: 1, max: 300 },
            note: None,
        },
        Spec {
            key: "SupplyDropSpan",
            label: "補給物資の間隔(分)",
            kind: Kind::Int { min: 0, max: 1440 },
            note: None,
        },
        Spec {
            key: "bAllowClientMod",
            label: "クライアントMODを許可",
            kind: Kind::Bool,
            note: None,
        },
        Spec {
            key: "bUseAuth",
            label: "認証を要求する",
            kind: Kind::Bool,
            note: None,
        },
        Spec {
            key: "CrossplayPlatforms",
            label: "クロスプレイ対象",
            kind: Kind::Raw,
            note: Some("(Steam,Xbox,PS5,Mac) の形式。括弧ごと編集する"),
        },
        Spec {
            key: "Region",
            label: "リージョン",
            kind: Kind::Text,
            note: None,
        },
        Spec {
            key: "BanListURL",
            label: "BANリストのURL",
            kind: Kind::Text,
            note: None,
        },
        Spec {
            key: "LogFormatType",
            label: "ログ形式",
            kind: Kind::Choice(vec!["Text", "Json"]),
            note: None,
        },
        Spec {
            key: "ServerReplicatePawnCullDistance",
            label: "同期する距離",
            kind: Kind::Float { min_tenths: 50000, max_tenths: 300000 },
            note: Some("下げるとCPU負荷が減るが、遠くのパルが動かなくなる"),
        },
        Spec {
            key: "ItemContainerForceMarkDirtyInterval",
            label: "コンテナ同期の間隔(秒)",
            kind: Kind::Float { min_tenths: 1, max_tenths: 100 },
            note: None,
        },
        Spec {
            key: "PlayerDataPalStorageUpdateCheckTickInterval",
            label: "パルボックス同期の間隔(秒)",
            kind: Kind::Float { min_tenths: 1, max_tenths: 100 },
            note: None,
        },
        Spec {
            key: "AutoTransferMasterCheckIntervalSeconds",
            label: "ギルド主の自動移譲チェック間隔(秒)",
            kind: Kind::Float { min_tenths: 600, max_tenths: 864000 },
            note: None,
        },
        Spec {
            key: "AutoTransferMasterThresholdDays",
            label: "ギルド主の自動移譲までの日数",
            kind: Kind::Int { min: 1, max: 365 },
            note: None,
        },
    ];

    assert(r@[14]@.kind->Choice_0 =~= server_table()[14].kind->Choice_0);
    assert(spec_views(r@) =~= server_table());
    r
}

/// Voice chat.
pub open spec fn voice_table() -> Seq<SpecView> {
    seq![
        SpecView {
            key: "bEnableVoiceChat"@,
            label: "ボイスチャット"@,
            kind: KindView::Bool,
            note: None,
        },
        SpecView {
            key: "VoiceChatMaxVolumeDistance"@,
            label: "最大音量の距離"@,
            kind: KindView::Float { min_tenths: 1000, max_tenths: 300000 },
            note: None,
        },
        SpecView {
            key: "VoiceChatZeroVolumeDistance"@,
            label: "音量ゼロになる距離"@,
            kind: KindView::Float { min_tenths: 1000, max_tenths: 300000 },
            note: None,
        },
    ]
}

fn voice() -> (r: Vec<Spec>)
    ensures
        spec_views(r@) == voice_table(),
{
    let r = vec![
        Spec {
            key: "bEnableVoiceChat",
            label: "ボイスチャット",
            kind: Kind::Bool,
            note: None,
        },
        Spec {
            key: "VoiceChatMaxVolumeDistance",
            label: "最大音量の距離",
            kind: Kind::Float { min_tenths: 1000, max_tenths: 300000 },
            note: None,
        },
        Spec {
            key: "VoiceChatZeroVolumeDistance",
            label: "音量ゼロになる距離",
            kind: Kind::Float { min_tenths: 1000, max_tenths: 300000 },
            note: None,
        },
    ];

    assert(spec_views(r@) =~= voice_table());
    r
}

/// Access and passwords.
pub open spec fn access_table() -> Seq<SpecView> {
    seq![
        SpecView {
            key: "ServerPassword"@,
            label: "サーバーパスワード"@,
            kind: KindView::Secret,
            note: Some("空にすると誰でも入れる"@),
        },
        SpecView {
            key: "AdminPassword"@,
            label: "管理者パスワード"@,
            kind: KindView::Secret,
            note: Some("RCON のパスワードでもある。変えると palbot の config.json も直す必要がある"@),
        },
        SpecView {
            key: "PublicPort"@,
            label: "公開ポート"@,
            kind: KindView::Int { min: 1, max: 65535 },
            note: None,
        },
        SpecView {
            key: "PublicIP"@,
            label: "公開IP"@,
            kind: KindView::Text,
            note: Some("空のままにする。書くと playit トンネルで隠している実IPを晒すことになる"@),
        },
        SpecView {
            key: "RCONEnabled"@,
            label: "RCON を有効にする"@,
            kind: KindView::Bool,
            note: Some("切ると VWatch のプレイヤー一覧と palbot が動かなくなる"@),
        },
        SpecView {
            key: "RCONPort"@,
            label: "RCON ポート"@,
            kind: KindView::Int { min: 1, max: 65535 },
            note: None,
        },
        SpecView {
            key: "RESTAPIEnabled"@,
            label: "REST API を有効にする"@,
            kind: KindView::Bool,
            note: None,
        },
        SpecView {
            key: "RESTAPIPort"@,
            label: "REST API ポート"@,
            kind: KindView::Int { min: 1, max: 65535 },
            note: None,
        },
    ]
}

fn access() -> (r: Vec<Spec>)
    ensures
        spec_views(r@) == access_table(),
{
    let r = vec![
        Spec {
            key: "ServerPassword",
            label: "サーバーパスワード",
            kind: Kind::Secret,
            note: Some("空にすると誰でも入れる"),
        },
        Spec {
            key: "AdminPassword",
            label: "管理者パスワード",
            kind: Kind::Secret,
            note: Some("RCON のパスワードでもある。変えると palbot の config.json も直す必要がある"),
        },
        Spec {
            key: "PublicPort",
            label: "公開ポート",
            kind: Kind::Int { min: 1, max: 65535 },
            note: None,
        },
        Spec {
            key: "PublicIP",
            label: "公開IP",
            kind: Kind::Text,
            note: Some("空のままにする。書くと playit トンネルで隠している実IPを晒すことになる"),
        },
        Spec {
            key: "RCONEnabled",
            label: "RCON を有効にする",
            kind: Kind::Bool,
            note: Some("切ると VWatch のプレイヤー一覧と palbot が動かなくなる"),
        },
        Spec {
            key: "RCONPort",
            label: "RCON ポート",
            kind: Kind::Int { min: 1, max: 65535 },
            note: None,
        },
        Spec {
            key: "RESTAPIEnabled",
            label: "REST API を有効にする",
            kind: Kind::Bool,
            note: None,
        },
        Spec {
            key: "RESTAPIPort",
            label: "REST API ポート",
            kind: Kind::Int { min: 1, max: 65535 },
            note: None,
        },
    ];

    assert(spec_views(r@) =~= access_table());
    r
}

/// Every key Palworld writes into `OptionSettings`, grouped the way you'd go looking for
/// them.
pub open spec fn group_table() -> Seq<GroupView> {
    seq![
        GroupView { title: "時間・セーブ"@, specs: time_table() },
        GroupView { title: "難易度"@, specs: difficulty_table() },
        GroupView { title: "レート"@, specs: rates_table() },
        GroupView { title: "プレイヤー・パルの状態"@, specs: condition_table() },
        GroupView { title: "戦闘"@, specs: combat_table() },
        GroupView { title: "拠点・建築"@, specs: base_table() },
        GroupView { title: "ドロップ"@, specs: drops_table() },
        GroupView { title: "ギルド"@, specs: guild_table() },
        GroupView { title: "ゲームルール"@, specs: rules_table() },
        GroupView { title: "サーバー"@, specs: server_table() },
        GroupView { title: "ボイスチャット"@, specs: voice_table() },
        GroupView { title: "接続・パスワード"@, specs: access_table() },
    ]
}

/// Every key Palworld writes into `OptionSettings`, grouped the way you'd go looking for
/// them. Anything the running server didn't write out is skipped by the UI, so a key a
/// future update drops just disappears from the list rather than being resurrected with
/// a wrong default.
///
/// Ranges are deliberately wider than the in-game world-settings UI: the dedicated
/// server does *not* clamp what it reads from the ini — verified by writing 5.0 to the
/// rates, restarting, and reading back the server's own shutdown write-back (still 5.0).
pub fn groups() -> (r: Vec<Group>)
    ensures
        group_views(r@) == group_table(),
{
    let r = vec![
        Group { title: "時間・セーブ", specs: time() },
        Group { title: "難易度", specs: difficulty() },
        Group { title: "レート", specs: rates() },
        Group { title: "プレイヤー・パルの状態", specs: condition() },
        Group { title: "戦闘", specs: combat() },
        Group { title: "拠点・建築", specs: base() },
        Group { title: "ドロップ", specs: drops() },
        Group { title: "ギルド", specs: guild() },
        Group { title: "ゲームルール", specs: rules() },
        Group { title: "サーバー", specs: server() },
        Group { title: "ボイスチャット", specs: voice() },
        Group { title: "接続・パスワード", specs: access() },
    ];
    assert(group_views(r@) =~= group_table());
    r
}

} // verus!
