//! The settings that the form offers: which there are, how each is edited, and what an
//! edit leaves in the file.
use crate::catalog::{group_table, KindView, SpecView};
use crate::chars::swapped;
use crate::fields::{
    lemma_key_nesting, lemma_plain_holds, plain, plain_char, plain_key, quoted_text,
    set_switches_are_shown_again, shown_as, switch_text, typed_texts_are_shown_again,
    typed_texts_last, unquoted, with_choice, with_raw, with_switch, with_text, with_whole,
    written_integers_are_shown_again, FieldView,
};
use crate::numbers::decimal_int;
use crate::palworld::{behind, lookup, rendered, top, top_comma, truth, IniView, Nesting};
use crate::round_trip::{
    balanced, lasting, lemma_behind_concat, lemma_comma_concat, reread, set_changes_one_key,
    set_keeps_settings_storable, storable, usable,
};
use vstd::prelude::*;

verus! {

// ---------------------------------------------------------------------------
// The settings, key by key
// ---------------------------------------------------------------------------
/// A rate between two bounds in tenths.
pub open spec fn rate(min: int, max: int) -> KindView {
    KindView::Float { min_tenths: min, max_tenths: max }
}

/// An integer between two bounds.
pub open spec fn whole(min: int, max: int) -> KindView {
    KindView::Int { min, max }
}

/// What the form offers at a place of a group.
pub open spec fn setting_is(
    group: int,
    place: int,
    key: Seq<char>,
    label: Seq<char>,
    kind: KindView,
    note: Option<Seq<char>>,
) -> bool {
    group_table()[group].specs[place] == (SpecView { key, label, kind, note })
}

/// There are twelve groups.
pub proof fn groups_of_settings()
    ensures
        group_table().len() == 12,
{
}

/// Time and saves: each setting with its name, how it is edited and between which bounds, and
/// its note.
pub proof fn time_settings()
    ensures
        group_table()[0].title == "時間・セーブ"@,
        group_table()[0].specs.len() == 4,
        setting_is(
            0,
            0,
            "DayTimeSpeedRate"@,
            "昼の長さ"@,
            rate(1, 100),
            Some("大きいほど昼が速く過ぎる（=昼が短い）。0.5 で昼が2倍長い"@),
        ),
        setting_is(
            0,
            1,
            "NightTimeSpeedRate"@,
            "夜の長さ"@,
            rate(1, 100),
            Some("大きいほど夜が速く過ぎる（=夜が短い）。夜を飛ばしたいなら上げる"@),
        ),
        setting_is(0, 2, "AutoSaveSpan"@, "自動セーブ間隔(秒)"@, rate(100, 6000), None),
        setting_is(0, 3, "bIsUseBackupSaveData"@, "セーブのバックアップを取る"@, KindView::Bool, None),
{
}

/// Difficulty: each setting with its name, how it is edited and between which bounds, and
/// its note.
pub proof fn difficulty_settings()
    ensures
        group_table()[1].title == "難易度"@,
        group_table()[1].specs.len() == 7,
        setting_is(
            1,
            0,
            "Difficulty"@,
            "難易度プリセット"@,
            KindView::Choice(seq!["None"@, "Casual"@, "Normal"@, "Hard"@]),
            Some("None 以外にすると個別のレート設定より優先される"@),
        ),
        setting_is(
            1,
            1,
            "RandomizerType"@,
            "ランダマイザ"@,
            KindView::Choice(seq!["None"@, "Region"@, "All"@]),
            Some("パルの出現をランダム化する。変更後は新規ワールド推奨"@),
        ),
        setting_is(1, 2, "RandomizerSeed"@, "ランダマイザのシード"@, KindView::Text, None),
        setting_is(
            1,
            3,
            "bIsRandomizerPalLevelRandom"@,
            "パルのレベルもランダムにする"@,
            KindView::Bool,
            None,
        ),
        setting_is(1, 4, "bHardcore"@, "ハードコア"@, KindView::Bool, None),
        setting_is(1, 5, "bPalLost"@, "死亡時にパルをロストする"@, KindView::Bool, None),
        setting_is(
            1,
            6,
            "bCharacterRecreateInHardcore"@,
            "ハードコアで死亡したらキャラ再作成"@,
            KindView::Bool,
            None,
        ),
{
}

/// Rates: each setting with its name, how it is edited and between which bounds, and
/// its note.
pub proof fn rate_settings()
    ensures
        group_table()[2].title == "レート"@,
        group_table()[2].specs.len() == 13,
        setting_is(
            2,
            0,
            "ExpRate"@,
            "経験値倍率"@,
            rate(1, 200),
            Some("ゲーム内UIの上限は3.0だが、ini経由なら丸められない"@),
        ),
        setting_is(2, 1, "CollectionDropRate"@, "採集アイテム量"@, rate(1, 200), None),
        setting_is(2, 2, "CollectionObjectHpRate"@, "採集オブジェクトの耐久"@, rate(1, 100), None),
        setting_is(
            2,
            3,
            "CollectionObjectRespawnSpeedRate"@,
            "採集物のリスポップ速度"@,
            rate(1, 50),
            None,
        ),
        setting_is(2, 4, "EnemyDropItemRate"@, "パルからのドロップ量"@, rate(1, 200), None),
        setting_is(2, 5, "PalCaptureRate"@, "パル捕獲率"@, rate(1, 100), None),
        setting_is(
            2,
            6,
            "PalSpawnNumRate"@,
            "パル出現数"@,
            rate(1, 50),
            Some("上げすぎるとサーバーのCPU負荷が上がる"@),
        ),
        setting_is(2, 7, "WorkSpeedRate"@, "作業速度"@, rate(1, 100), None),
        setting_is(2, 8, "ItemWeightRate"@, "アイテム重量倍率"@, rate(0, 50), Some("0 で重量無制限"@)),
        setting_is(
            2,
            9,
            "EquipmentDurabilityDamageRate"@,
            "装備の消耗速度"@,
            rate(0, 100),
            Some("0 で装備が壊れない"@),
        ),
        setting_is(
            2,
            10,
            "ItemCorruptionMultiplier"@,
            "アイテムの腐敗速度"@,
            rate(0, 100),
            Some("0 で腐らない"@),
        ),
        setting_is(2, 11, "MonsterFarmActionSpeedRate"@, "牧場の生産速度"@, rate(1, 100), None),
        setting_is(
            2,
            12,
            "PalEggDefaultHatchingTime"@,
            "卵の孵化時間(時)"@,
            rate(0, 720),
            Some("0 で即孵化"@),
        ),
{
}

/// The condition of players and Pals: each setting with its name, how it is edited and between which bounds, and
/// its note.
pub proof fn condition_settings()
    ensures
        group_table()[3].title == "プレイヤー・パルの状態"@,
        group_table()[3].specs.len() == 8,
        setting_is(3, 0, "PlayerStomachDecreaceRate"@, "プレイヤーの空腹速度"@, rate(0, 50), None),
        setting_is(3, 1, "PlayerStaminaDecreaceRate"@, "プレイヤーのスタミナ消費"@, rate(0, 50), None),
        setting_is(3, 2, "PlayerAutoHPRegeneRate"@, "プレイヤーのHP自動回復"@, rate(1, 100), None),
        setting_is(
            3,
            3,
            "PlayerAutoHpRegeneRateInSleep"@,
            "プレイヤーの睡眠時HP回復"@,
            rate(1, 100),
            None,
        ),
        setting_is(3, 4, "PalStomachDecreaceRate"@, "パルの空腹速度"@, rate(0, 50), None),
        setting_is(3, 5, "PalStaminaDecreaceRate"@, "パルのスタミナ消費"@, rate(0, 50), None),
        setting_is(3, 6, "PalAutoHPRegeneRate"@, "パルのHP自動回復"@, rate(1, 100), None),
        setting_is(3, 7, "PalAutoHpRegeneRateInSleep"@, "パルの拠点でのHP回復"@, rate(1, 100), None),
{
}

/// Combat: each setting with its name, how it is edited and between which bounds, and
/// its note.
pub proof fn combat_settings()
    ensures
        group_table()[4].title == "戦闘"@,
        group_table()[4].specs.len() == 13,
        setting_is(4, 0, "PalDamageRateAttack"@, "パルの与ダメージ"@, rate(1, 50), None),
        setting_is(4, 1, "PalDamageRateDefense"@, "パルの被ダメージ"@, rate(1, 50), None),
        setting_is(4, 2, "PlayerDamageRateAttack"@, "プレイヤーの与ダメージ"@, rate(1, 50), None),
        setting_is(4, 3, "PlayerDamageRateDefense"@, "プレイヤーの被ダメージ"@, rate(1, 50), None),
        setting_is(4, 4, "bEnableInvaderEnemy"@, "拠点への襲撃を有効にする"@, KindView::Bool, None),
        setting_is(4, 5, "EnablePredatorBossPal"@, "捕食者ボスパルを出現させる"@, KindView::Bool, None),
        setting_is(4, 6, "bIsPvP"@, "PvPを有効にする"@, KindView::Bool, None),
        setting_is(4, 7, "bEnablePlayerToPlayerDamage"@, "プレイヤー間のダメージ"@, KindView::Bool, None),
        setting_is(4, 8, "bEnableFriendlyFire"@, "フレンドリーファイア"@, KindView::Bool, None),
        setting_is(
            4,
            9,
            "bAdditionalDropItemWhenPlayerKillingInPvPMode"@,
            "PvPキル時に追加ドロップ"@,
            KindView::Bool,
            None,
        ),
        setting_is(
            4,
            10,
            "AdditionalDropItemNumWhenPlayerKillingInPvPMode"@,
            "PvPキル時の追加ドロップ数"@,
            whole(0, 10),
            None,
        ),
        setting_is(4, 11, "bEnableAimAssistPad"@, "エイムアシスト(パッド)"@, KindView::Bool, None),
        setting_is(4, 12, "bEnableAimAssistKeyboard"@, "エイムアシスト(キーボード)"@, KindView::Bool, None),
{
}

/// Bases and building: each setting with its name, how it is edited and between which bounds, and
/// its note.
pub proof fn base_settings()
    ensures
        group_table()[5].title == "拠点・建築"@,
        group_table()[5].specs.len() == 12,
        setting_is(
            5,
            0,
            "BaseCampWorkerMaxNum"@,
            "拠点で働けるパルの数"@,
            whole(1, 30),
            Some("ゲーム内UIの上限は20。20超も設定は通るが実際に配置できるかは未検証。1体ごとにAIが動くのでCPU負荷に直結する"@),
        ),
        setting_is(5, 1, "BaseCampMaxNum"@, "拠点の総数上限(サーバー全体)"@, whole(1, 256), None),
        setting_is(5, 2, "BaseCampMaxNumInGuild"@, "ギルドが持てる拠点の数"@, whole(1, 10), None),
        setting_is(5, 3, "BuildObjectHpRate"@, "建築物の耐久"@, rate(1, 100), None),
        setting_is(5, 4, "BuildObjectDamageRate"@, "建築物への被ダメージ"@, rate(0, 100), None),
        setting_is(
            5,
            5,
            "BuildObjectDeteriorationDamageRate"@,
            "建築物の劣化速度"@,
            rate(0, 100),
            Some("0 で劣化しない"@),
        ),
        setting_is(5, 6, "MaxBuildingLimitNum"@, "建築数の上限"@, whole(0, 50000), Some("0 で無制限"@)),
        setting_is(5, 7, "bBuildAreaLimit"@, "建築範囲の制限"@, KindView::Bool, None),
        setting_is(
            5,
            8,
            "bEnableDefenseOtherGuildPlayer"@,
            "他ギルドの拠点を攻撃可能にする"@,
            KindView::Bool,
            None,
        ),
        setting_is(
            5,
            9,
            "bInvisibleOtherGuildBaseCampAreaFX"@,
            "他ギルドの拠点範囲を非表示"@,
            KindView::Bool,
            None,
        ),
        setting_is(
            5,
            10,
            "bEnableBuildingPlayerUIdDisplay"@,
            "建築物に設置者IDを表示"@,
            KindView::Bool,
            None,
        ),
        setting_is(
            5,
            11,
            "BuildingNameDisplayCacheTTLSeconds"@,
            "建築物名の表示キャッシュ(秒)"@,
            whole(0, 3600),
            None,
        ),
{
}

/// Drops: each setting with its name, how it is edited and between which bounds, and
/// its note.
pub proof fn drop_settings()
    ensures
        group_table()[6].title == "ドロップ"@,
        group_table()[6].specs.len() == 6,
        setting_is(
            6,
            0,
            "DropItemMaxNum"@,
            "ドロップ品の同時存在上限"@,
            whole(100, 20000),
            Some("ドロップ率を上げるならここも上げないと古い物から消える"@),
        ),
        setting_is(6, 1, "DropItemAliveMaxHours"@, "ドロップ品の消滅時間(時)"@, rate(1, 240), None),
        setting_is(
            6,
            2,
            "PhysicsActiveDropItemMaxNum"@,
            "物理演算するドロップ品の上限"@,
            whole(-1, 1000),
            Some("-1 で無制限"@),
        ),
        setting_is(6, 3, "DropItemMaxNum_UNKO"@, "フンの同時存在上限"@, whole(0, 1000), None),
        setting_is(
            6,
            4,
            "DeathPenalty"@,
            "デスペナルティ"@,
            KindView::Choice(seq!["None"@, "Item"@, "ItemAndEquipment"@, "All"@]),
            None,
        ),
        setting_is(
            6,
            5,
            "bCanPickupOtherGuildDeathPenaltyDrop"@,
            "他ギルドの死亡ドロップを拾える"@,
            KindView::Bool,
            None,
        ),
{
}

/// Guilds: each setting with its name, how it is edited and between which bounds, and
/// its note.
pub proof fn guild_settings()
    ensures
        group_table()[7].title == "ギルド"@,
        group_table()[7].specs.len() == 4,
        setting_is(7, 0, "GuildPlayerMaxNum"@, "ギルドの人数上限"@, whole(1, 100), None),
        setting_is(
            7,
            1,
            "bAutoResetGuildNoOnlinePlayers"@,
            "無人ギルドを自動解散する"@,
            KindView::Bool,
            None,
        ),
        setting_is(
            7,
            2,
            "AutoResetGuildTimeNoOnlinePlayers"@,
            "自動解散までの時間(時)"@,
            rate(10, 7200),
            None,
        ),
        setting_is(
            7,
            3,
            "GuildRejoinCooldownMinutes"@,
            "ギルド再加入のクールダウン(分)"@,
            whole(0, 1440),
            None,
        ),
{
}

/// The rules of the game: each setting with its name, how it is edited and between which bounds, and
/// its note.
pub proof fn rule_settings()
    ensures
        group_table()[8].title == "ゲームルール"@,
        group_table()[8].specs.len() == 14,
        setting_is(8, 0, "bEnableFastTravel"@, "ファストトラベル"@, KindView::Bool, None),
        setting_is(
            8,
            1,
            "bEnableFastTravelOnlyBaseCamp"@,
            "ファストトラベルは拠点のみ"@,
            KindView::Bool,
            None,
        ),
        setting_is(8, 2, "bIsStartLocationSelectByMap"@, "開始地点をマップから選ぶ"@, KindView::Bool, None),
        setting_is(8, 3, "bExistPlayerAfterLogout"@, "ログアウト後もキャラが残る"@, KindView::Bool, None),
        setting_is(8, 4, "bEnableNonLoginPenalty"@, "未ログインペナルティ"@, KindView::Bool, None),
        setting_is(
            8,
            5,
            "bAllowGlobalPalboxExport"@,
            "グローバルパルボックスへの書き出し"@,
            KindView::Bool,
            None,
        ),
        setting_is(
            8,
            6,
            "bAllowGlobalPalboxImport"@,
            "グローバルパルボックスからの取り込み"@,
            KindView::Bool,
            None,
        ),
        setting_is(8, 7, "bAllowEnhanceStat_Health"@, "ステ振り: HP"@, KindView::Bool, None),
        setting_is(8, 8, "bAllowEnhanceStat_Attack"@, "ステ振り: 攻撃"@, KindView::Bool, None),
        setting_is(8, 9, "bAllowEnhanceStat_Stamina"@, "ステ振り: スタミナ"@, KindView::Bool, None),
        setting_is(8, 10, "bAllowEnhanceStat_Weight"@, "ステ振り: 重量"@, KindView::Bool, None),
        setting_is(8, 11, "bAllowEnhanceStat_WorkSpeed"@, "ステ振り: 作業速度"@, KindView::Bool, None),
        setting_is(8, 12, "bActiveUNKO"@, "UNKO を有効にする"@, KindView::Bool, None),
        setting_is(
            8,
            13,
            "DenyTechnologyList"@,
            "禁止する技術のリスト"@,
            KindView::Raw,
            Some("技術IDをカンマ区切りで。空なら制限なし"@),
        ),
{
}

/// The server: each setting with its name, how it is edited and between which bounds, and
/// its note.
pub proof fn server_settings()
    ensures
        group_table()[9].title == "サーバー"@,
        group_table()[9].specs.len() == 20,
        setting_is(9, 0, "ServerName"@, "サーバー名"@, KindView::Text, None),
        setting_is(9, 1, "ServerDescription"@, "サーバー説明"@, KindView::Text, None),
        setting_is(9, 2, "ServerPlayerMaxNum"@, "最大プレイヤー数"@, whole(1, 32), None),
        setting_is(9, 3, "CoopPlayerMaxNum"@, "同一ギルドの同時参加上限"@, whole(1, 32), None),
        setting_is(
            9,
            4,
            "bIsMultiplay"@,
            "マルチプレイ"@,
            KindView::Bool,
            Some("専用サーバーでは通常 False のままでよい"@),
        ),
        setting_is(9, 5, "bShowPlayerList"@, "プレイヤー一覧を公開する"@, KindView::Bool, None),
        setting_is(9, 6, "bIsShowJoinLeftMessage"@, "参加・退出メッセージを出す"@, KindView::Bool, None),
        setting_is(9, 7, "ChatPostLimitPerMinute"@, "チャットの投稿上限(毎分)"@, whole(1, 300), None),
        setting_is(9, 8, "SupplyDropSpan"@, "補給物資の間隔(分)"@, whole(0, 1440), None),
        setting_is(9, 9, "bAllowClientMod"@, "クライアントMODを許可"@, KindView::Bool, None),
        setting_is(9, 10, "bUseAuth"@, "認証を要求する"@, KindView::Bool, None),
        setting_is(
            9,
            11,
            "CrossplayPlatforms"@,
            "クロスプレイ対象"@,
            KindView::Raw,
            Some("(Steam,Xbox,PS5,Mac) の形式。括弧ごと編集する"@),
        ),
        setting_is(9, 12, "Region"@, "リージョン"@, KindView::Text, None),
        setting_is(9, 13, "BanListURL"@, "BANリストのURL"@, KindView::Text, None),
        setting_is(
            9,
            14,
            "LogFormatType"@,
            "ログ形式"@,
            KindView::Choice(seq!["Text"@, "Json"@]),
            None,
        ),
        setting_is(
            9,
            15,
            "ServerReplicatePawnCullDistance"@,
            "同期する距離"@,
            rate(50000, 300000),
            Some("下げるとCPU負荷が減るが、遠くのパルが動かなくなる"@),
        ),
        setting_is(
            9,
            16,
            "ItemContainerForceMarkDirtyInterval"@,
            "コンテナ同期の間隔(秒)"@,
            rate(1, 100),
            None,
        ),
        setting_is(
            9,
            17,
            "PlayerDataPalStorageUpdateCheckTickInterval"@,
            "パルボックス同期の間隔(秒)"@,
            rate(1, 100),
            None,
        ),
        setting_is(
            9,
            18,
            "AutoTransferMasterCheckIntervalSeconds"@,
            "ギルド主の自動移譲チェック間隔(秒)"@,
            rate(600, 864000),
            None,
        ),
        setting_is(
            9,
            19,
            "AutoTransferMasterThresholdDays"@,
            "ギルド主の自動移譲までの日数"@,
            whole(1, 365),
            None,
        ),
{
}

/// Voice chat: each setting with its name, how it is edited and between which bounds, and
/// its note.
pub proof fn voice_settings()
    ensures
        group_table()[10].title == "ボイスチャット"@,
        group_table()[10].specs.len() == 3,
        setting_is(10, 0, "bEnableVoiceChat"@, "ボイスチャット"@, KindView::Bool, None),
        setting_is(10, 1, "VoiceChatMaxVolumeDistance"@, "最大音量の距離"@, rate(1000, 300000), None),
        setting_is(
            10,
            2,
            "VoiceChatZeroVolumeDistance"@,
            "音量ゼロになる距離"@,
            rate(1000, 300000),
            None,
        ),
{
}

/// Access: each setting with its name, how it is edited and between which bounds, and
/// its note.
pub proof fn access_settings()
    ensures
        group_table()[11].title == "接続・パスワード"@,
        group_table()[11].specs.len() == 8,
        setting_is(
            11,
            0,
            "ServerPassword"@,
            "サーバーパスワード"@,
            KindView::Secret,
            Some("空にすると誰でも入れる"@),
        ),
        setting_is(
            11,
            1,
            "AdminPassword"@,
            "管理者パスワード"@,
            KindView::Secret,
            Some("RCON のパスワードでもある。変えると palbot の config.json も直す必要がある"@),
        ),
        setting_is(11, 2, "PublicPort"@, "公開ポート"@, whole(1, 65535), None),
        setting_is(
            11,
            3,
            "PublicIP"@,
            "公開IP"@,
            KindView::Text,
            Some("空のままにする。書くと playit トンネルで隠している実IPを晒すことになる"@),
        ),
        setting_is(
            11,
            4,
            "RCONEnabled"@,
            "RCON を有効にする"@,
            KindView::Bool,
            Some("切ると VWatch のプレイヤー一覧と palbot が動かなくなる"@),
        ),
        setting_is(11, 5, "RCONPort"@, "RCON ポート"@, whole(1, 65535), None),
        setting_is(11, 6, "RESTAPIEnabled"@, "REST API を有効にする"@, KindView::Bool, None),
        setting_is(11, 7, "RESTAPIPort"@, "REST API ポート"@, whole(1, 65535), None),
{
}

// ---------------------------------------------------------------------------
// Edits
// ---------------------------------------------------------------------------
/// What a text typed into the form makes of the file: the field says whether it is
/// written between quotes or as it is.
pub open spec fn typed_into(ini: IniView, spec: SpecView, typed: Seq<char>) -> IniView {
    match shown_as(spec.kind, lookup(ini.options, spec.key)) {
        FieldView::Text(_) => with_text(ini, spec.key, typed),
        FieldView::Secret(_) => with_text(ini, spec.key, typed),
        _ => with_raw(ini, spec.key, typed),
    }
}

/// The settings that Palworld writes as quoted strings.
pub open spec fn quoted_keys() -> Seq<Seq<char>> {
    seq![
        "RandomizerSeed"@,
        "ServerName"@,
        "ServerDescription"@,
        "Region"@,
        "BanListURL"@,
        "PublicIP"@,
        "ServerPassword"@,
        "AdminPassword"@,
    ]
}

/// Where the form offers them.
pub open spec fn quoted_place(k: int) -> (int, int) {
    if k == 0 {
        (1, 2)
    } else if k == 1 {
        (9, 0)
    } else if k == 2 {
        (9, 1)
    } else if k == 3 {
        (9, 12)
    } else if k == 4 {
        (9, 13)
    } else if k == 5 {
        (11, 3)
    } else if k == 6 {
        (11, 0)
    } else {
        (11, 1)
    }
}

/// Every setting that Palworld writes as a quoted string is edited between its quotes:
/// whatever line is typed, the value in the file is quoted, the file stays one that
/// reads back, and what was typed is shown again but for quotes of its own. The two
/// passwords among them are not shown by default.
pub proof fn quoted_settings_stay_quoted(k: int, ini: IniView, typed: Seq<char>)
    requires
        0 <= k < quoted_keys().len(),
        storable(ini.options),
        lookup(ini.options, quoted_keys()[k]) is Some,
        !typed.contains('\n'),
    ensures
        ({
            let (g, i) = quoted_place(k);
            let spec = group_table()[g].specs[i];
            let after = typed_into(ini, spec, typed);
            let left = swapped(typed, '"', Seq::empty());
            &&& 0 <= g < group_table().len()
            &&& 0 <= i < group_table()[g].specs.len()
            &&& spec.key == quoted_keys()[k]
            &&& lookup(after.options, spec.key) == Some(seq!['"'] + left + seq!['"'])
            &&& storable(after.options)
            &&& shown_as(spec.kind, lookup(after.options, spec.key)) == if k < 6 {
                FieldView::Text(left)
            } else {
                FieldView::Secret(left)
            }
        }),
{
    reveal_strlit("RandomizerSeed");
    reveal_strlit("ServerName");
    reveal_strlit("ServerDescription");
    reveal_strlit("Region");
    reveal_strlit("BanListURL");
    reveal_strlit("PublicIP");
    reveal_strlit("ServerPassword");
    reveal_strlit("AdminPassword");
    let key = quoted_keys()[k];
    assert(plain_key(key)) by {
        assert(plain(key)) by {
            assert forall|i: int| 0 <= i < key.len() implies plain_char(#[trigger] key[i]) by {
            }
        }
    }
    typed_texts_last(key, typed);
    typed_texts_are_shown_again(ini.options, key, typed);
    set_changes_one_key(ini.options, key, quoted_text(typed), key);
    set_keeps_settings_storable(ini.options, key, quoted_text(typed));
}

/// A text that stands between quotes in the file is shown without them.
pub proof fn texts_are_shown_without_quotes(inside: Seq<char>)
    requires
        inside.len() > 0 ==> inside[0] != '"' && inside.last() != '"',
    ensures
        unquoted(Some(seq!['"'] + inside + seq!['"'])) == inside,
        shown_as(KindView::Text, Some(seq!['"'] + inside + seq!['"'])) == FieldView::Text(inside),
        shown_as(KindView::Secret, Some(seq!['"'] + inside + seq!['"'])) == FieldView::Secret(
            inside,
        ),
{
    let q = seq!['"'];
    let value = q + inside + q;
    let rest = inside + q;
    assert(value[0] == '"');
    assert(value.drop_first() =~= rest);
    if inside.len() == 0 {
        assert(rest[0] == '"');
        assert(rest.drop_first() =~= Seq::empty());
        assert(crate::chars::stripped_start(rest.drop_first(), '"') =~= Seq::empty());
        assert(crate::chars::stripped_start(value, '"') == crate::chars::stripped_start(rest, '"'));
        assert(crate::chars::stripped_start(rest, '"') =~= Seq::empty());
        assert(crate::chars::stripped_end(Seq::empty(), '"') =~= inside);
    } else {
        assert(rest[0] == inside[0]);
        assert(crate::chars::stripped_start(rest, '"') == rest);
        assert(rest.last() == '"');
        assert(rest.drop_last() =~= inside);
        assert(crate::chars::stripped_end(inside, '"') == inside);
    }
}

/// A value that is neither quoted nor a number is shown as it stands, and so is a rate;
/// bounds and options are those of the setting.
pub proof fn values_are_shown_as_they_stand(
    value: Option<Seq<char>>,
    lo: int,
    hi: int,
    options: Seq<Seq<char>>,
)
    ensures
        shown_as(KindView::Raw, value) == FieldView::Raw(
            match value {
                Some(v) => v,
                None => ""@,
            },
        ),
        shown_as(KindView::Choice(options), value) == (FieldView::Choice {
            selected: match value {
                Some(v) => v,
                None => ""@,
            },
            options,
        }),
        shown_as(rate(lo, hi), value) == (FieldView::Rate {
            written: value,
            min_tenths: lo,
            max_tenths: hi,
        }),
{
}

/// A switch is on where the file says `True` or `true`, and off for whatever else it
/// says.
pub proof fn switches_are_on_where_true(value: Option<Seq<char>>)
    ensures
        shown_as(KindView::Bool, value) == FieldView::Switch(
            value == Some("True"@) || value == Some("true"@),
        ),
{
}

/// An edit through the form is shown again as it was made, and leaves every other setting
/// and every other line alone.
pub proof fn edits_are_shown_again(
    ini: IniView,
    key: Seq<char>,
    other: Seq<char>,
    n: int,
    lo: int,
    hi: int,
    on: bool,
    selected: Seq<char>,
    options: Seq<Seq<char>>,
)
    requires
        i64::MIN <= n <= i64::MAX,
        key != other,
    ensures
        ({
            let a = with_whole(ini, key, n);
            &&& shown_as(whole(lo, hi), lookup(a.options, key)) == (FieldView::Whole {
                current: n,
                min: lo,
                max: hi,
            })
            &&& lookup(a.options, other) == lookup(ini.options, other)
            &&& a.lines == ini.lines && a.option_line == ini.option_line
        }),
        ({
            let a = with_switch(ini, key, on);
            &&& lookup(a.options, key) == Some(if on {
                "True"@
            } else {
                "False"@
            })
            &&& shown_as(KindView::Bool, lookup(a.options, key)) == FieldView::Switch(on)
            &&& lookup(a.options, other) == lookup(ini.options, other)
            &&& a.lines == ini.lines && a.option_line == ini.option_line
        }),
        ({
            let a = with_choice(ini, key, selected);
            &&& shown_as(KindView::Choice(options), lookup(a.options, key)) == (
            FieldView::Choice { selected, options })
            &&& lookup(a.options, other) == lookup(ini.options, other)
            &&& a.lines == ini.lines && a.option_line == ini.option_line
            &&& lookup(ini.options, key) == Some(selected) ==> a == ini
        }),
        ({
            let a = with_raw(ini, key, selected);
            &&& shown_as(KindView::Raw, lookup(a.options, key)) == FieldView::Raw(selected)
            &&& lookup(a.options, other) == lookup(ini.options, other)
            &&& a.lines == ini.lines && a.option_line == ini.option_line
        }),
        ({
            let a = with_text(ini, key, selected);
            &&& lookup(a.options, other) == lookup(ini.options, other)
            &&& a.lines == ini.lines && a.option_line == ini.option_line
        }),
{
    written_integers_are_shown_again(ini.options, key, n, lo, hi);
    set_switches_are_shown_again(ini.options, key, on);
    set_changes_one_key(ini.options, key, decimal_int(n), other);
    set_changes_one_key(ini.options, key, switch_text(on), other);
    set_changes_one_key(ini.options, key, selected, other);
    set_changes_one_key(ini.options, key, quoted_text(selected), other);
}

// ---------------------------------------------------------------------------
// The file
// ---------------------------------------------------------------------------
/// The line of the settings is written the way Palworld reads it: every setting as its
/// key, `=` and its value, in order, with commas between, in parentheses behind
/// `OptionSettings=`. Every other line is written as it is, and each is ended.
pub proof fn settings_are_written_the_way_palworld_reads(ini: IniView)
    requires
        0 <= ini.option_line < ini.lines.len(),
    ensures
        ({
            let entries = Seq::new(
                ini.options.len(),
                |i: int| ini.options[i].0 + seq!['='] + ini.options[i].1,
            );
            let line = "OptionSettings=("@ + crate::chars::joined(entries, seq![',']) + seq![')'];
            rendered(ini) == crate::chars::joined(
                ini.lines.update(ini.option_line, line),
                seq!['\n'],
            ) + seq!['\n']
        }),
{
    let entries = Seq::new(
        ini.options.len(),
        |i: int| ini.options[i].0 + seq!['='] + ini.options[i].1,
    );
    assert(crate::palworld::entries(ini.options) =~= entries);
    let text = crate::chars::joined(
        ini.lines.update(ini.option_line, crate::palworld::option_text(ini.options)),
        seq!['\n'],
    );
    assert(text.push('\n') =~= text + seq!['\n']);
}

/// What is read back of a file is the settings as they were written, and every line but
/// that of the settings as it was.
pub proof fn only_the_settings_line_changes(ini: IniView, i: int)
    requires
        usable(ini),
        0 <= i < ini.lines.len(),
    ensures
        reread(ini).options == ini.options,
        reread(ini).option_line == ini.option_line,
        reread(ini).lines.len() == ini.lines.len(),
        i != ini.option_line ==> reread(ini).lines[i] == ini.lines[i],
{
}

/// A setting has the value of the first entry with its key, and none without one.
pub proof fn the_first_setting_counts(
    options: Seq<(Seq<char>, Seq<char>)>,
    key: Seq<char>,
    k: int,
)
    requires
        0 <= k <= options.len(),
        forall|i: int| 0 <= i < k ==> (#[trigger] options[i]).0 != key,
        k < options.len() ==> options[k].0 == key,
    ensures
        lookup(options, key) == if k < options.len() {
            Some(options[k].1)
        } else {
            None
        },
{
    crate::palworld::lemma_key_is(options, key, k);
}

/// `True` and `true` are true, `False` and `false` are false, and nothing else is
/// either.
pub proof fn truth_values_are_read(value: Seq<char>)
    ensures
        truth(value) == Some(true) <==> value == "True"@ || value == "true"@,
        truth(value) == Some(false) <==> value == "False"@ || value == "false"@,
{
    reveal_strlit("True");
    reveal_strlit("true");
    reveal_strlit("False");
    reveal_strlit("false");
    assert("True"@.len() == 4 && "true"@.len() == 4 && "False"@.len() == 5 && "false"@.len() == 5);
}

/// An integer that is not there is shown as the least it may be.
pub proof fn missing_integers_are_shown_as_the_least(lo: int, hi: int)
    ensures
        shown_as(whole(lo, hi), None) == (FieldView::Whole { current: lo, min: lo, max: hi }),
        shown_as(whole(lo, hi), Some(Seq::empty())) == (FieldView::Whole {
            current: lo,
            min: lo,
            max: hi,
        }),
        shown_as(KindView::Text, None) == FieldView::Text(""@),
        shown_as(KindView::Secret, None) == FieldView::Secret(""@),
{
}

/// Inside parentheses no comma separates.
proof fn lemma_nested(n: Nesting, s: Seq<char>)
    requires
        !n.quoted,
        n.depth > 0,
        !s.contains('"') && !s.contains('(') && !s.contains(')'),
    ensures
        behind(n, s) == n,
        top_comma(n, s) == s.len(),
    decreases s.len(),
{
    if s.len() > 0 {
        assert(s.contains(s[0]));
        let t = s.drop_first();
        assert forall|c: char| t.contains(c) implies s.contains(c) by {
            let i = choose|i: int| 0 <= i < t.len() && t[i] == c;
            assert(s[i + 1] == c);
        }
        lemma_nested(n, t);
    }
}

/// A list in parentheses survives being written, with the commas in it, wherever it
/// stands.
pub proof fn lists_last(key: Seq<char>, inner: Seq<char>)
    requires
        plain_key(key),
        !inner.contains('"') && !inner.contains('(') && !inner.contains(')'),
        !inner.contains('\n'),
    ensures
        lasting(key, seq!['('] + inner + seq![')']),
        balanced(key, seq!['('] + inner + seq![')']),
{
    let a = seq!['('];
    let b = seq![')'];
    let value = a + inner + b;
    let head = key + seq!['='];
    let inside = Nesting { quoted: false, depth: 1 };
    lemma_plain_holds(key);
    assert(value[0] == '(' && value.last() == ')');
    assert(!value.contains('\n')) by {
        if value.contains('\n') {
            let i = choose|i: int| 0 <= i < value.len() && value[i] == '\n';
            assert(inner[i - 1] == '\n');
        }
    }
    lemma_key_nesting(key);
    lemma_nested(inside, inner);
    assert(a.drop_first() =~= Seq::empty());
    assert(b.drop_first() =~= Seq::empty());
    reveal_with_fuel(behind, 2);
    reveal_with_fuel(top_comma, 2);
    assert(a[0] == '(' && b[0] == ')');
    assert(behind(top(), a) == inside);
    assert(top_comma(top(), a) == 1);
    assert(behind(inside, b) == top());
    assert(top_comma(inside, b) == 1);
    lemma_behind_concat(top(), a, inner);
    lemma_comma_concat(top(), a, inner);
    lemma_behind_concat(top(), a + inner, b);
    lemma_comma_concat(top(), a + inner, b);
    lemma_behind_concat(top(), head, value);
    lemma_comma_concat(top(), head, value);
}

} // verus!
