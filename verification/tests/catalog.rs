use vwatch::palworld::{groups, Kind};

/// Every key the live server (v1.0.0.100427) writes into `OptionSettings`,
/// in file order. The UI is meant to cover all of them; a key here with no
/// spec is a setting the user can't reach, and a spec whose key isn't here
/// is a typo that would silently never render.
const LIVE_KEYS: &[&str] = &[
    "Difficulty",
    "RandomizerType",
    "RandomizerSeed",
    "bIsRandomizerPalLevelRandom",
    "DayTimeSpeedRate",
    "NightTimeSpeedRate",
    "ExpRate",
    "PalCaptureRate",
    "PalSpawnNumRate",
    "PalDamageRateAttack",
    "PalDamageRateDefense",
    "PlayerDamageRateAttack",
    "PlayerDamageRateDefense",
    "PlayerStomachDecreaceRate",
    "PlayerStaminaDecreaceRate",
    "PlayerAutoHPRegeneRate",
    "PlayerAutoHpRegeneRateInSleep",
    "PalStomachDecreaceRate",
    "PalStaminaDecreaceRate",
    "PalAutoHPRegeneRate",
    "PalAutoHpRegeneRateInSleep",
    "BuildObjectHpRate",
    "BuildObjectDamageRate",
    "BuildObjectDeteriorationDamageRate",
    "CollectionDropRate",
    "CollectionObjectHpRate",
    "CollectionObjectRespawnSpeedRate",
    "EnemyDropItemRate",
    "DeathPenalty",
    "bEnablePlayerToPlayerDamage",
    "bEnableFriendlyFire",
    "bEnableInvaderEnemy",
    "bActiveUNKO",
    "bEnableAimAssistPad",
    "bEnableAimAssistKeyboard",
    "DropItemMaxNum",
    "PhysicsActiveDropItemMaxNum",
    "DropItemMaxNum_UNKO",
    "BaseCampMaxNum",
    "BaseCampWorkerMaxNum",
    "DropItemAliveMaxHours",
    "bAutoResetGuildNoOnlinePlayers",
    "AutoResetGuildTimeNoOnlinePlayers",
    "GuildPlayerMaxNum",
    "BaseCampMaxNumInGuild",
    "PalEggDefaultHatchingTime",
    "WorkSpeedRate",
    "AutoSaveSpan",
    "bIsMultiplay",
    "bIsPvP",
    "bHardcore",
    "bPalLost",
    "bCharacterRecreateInHardcore",
    "bCanPickupOtherGuildDeathPenaltyDrop",
    "bEnableNonLoginPenalty",
    "bEnableFastTravel",
    "bEnableFastTravelOnlyBaseCamp",
    "bIsStartLocationSelectByMap",
    "bExistPlayerAfterLogout",
    "bEnableDefenseOtherGuildPlayer",
    "bInvisibleOtherGuildBaseCampAreaFX",
    "bBuildAreaLimit",
    "ItemWeightRate",
    "CoopPlayerMaxNum",
    "ServerPlayerMaxNum",
    "ServerName",
    "ServerDescription",
    "AdminPassword",
    "ServerPassword",
    "bAllowClientMod",
    "PublicPort",
    "PublicIP",
    "RCONEnabled",
    "RCONPort",
    "Region",
    "bUseAuth",
    "BanListURL",
    "RESTAPIEnabled",
    "RESTAPIPort",
    "bShowPlayerList",
    "ChatPostLimitPerMinute",
    "CrossplayPlatforms",
    "bIsUseBackupSaveData",
    "LogFormatType",
    "bIsShowJoinLeftMessage",
    "SupplyDropSpan",
    "EnablePredatorBossPal",
    "MaxBuildingLimitNum",
    "ServerReplicatePawnCullDistance",
    "bAllowGlobalPalboxExport",
    "bAllowGlobalPalboxImport",
    "EquipmentDurabilityDamageRate",
    "ItemContainerForceMarkDirtyInterval",
    "PlayerDataPalStorageUpdateCheckTickInterval",
    "ItemCorruptionMultiplier",
    "MonsterFarmActionSpeedRate",
    "DenyTechnologyList",
    "GuildRejoinCooldownMinutes",
    "AutoTransferMasterCheckIntervalSeconds",
    "AutoTransferMasterThresholdDays",
    "AdditionalDropItemNumWhenPlayerKillingInPvPMode",
    "bAdditionalDropItemWhenPlayerKillingInPvPMode",
    "bEnableVoiceChat",
    "VoiceChatMaxVolumeDistance",
    "VoiceChatZeroVolumeDistance",
    "bAllowEnhanceStat_Health",
    "bAllowEnhanceStat_Attack",
    "bAllowEnhanceStat_Stamina",
    "bAllowEnhanceStat_Weight",
    "bAllowEnhanceStat_WorkSpeed",
    "bEnableBuildingPlayerUIdDisplay",
    "BuildingNameDisplayCacheTTLSeconds",
];

fn spec_keys() -> Vec<&'static str> {
    groups()
        .iter()
        .flat_map(|g| g.specs.iter().map(|s| s.key))
        .collect()
}

#[test]
fn every_live_setting_is_reachable_from_the_ui() {
    let keys = spec_keys();
    let missing: Vec<_> = LIVE_KEYS
        .iter()
        .filter(|k| !keys.contains(k))
        .copied()
        .collect();
    assert!(missing.is_empty(), "settings with no UI spec: {missing:?}");
}

#[test]
fn no_spec_points_at_a_key_the_server_never_writes() {
    let unknown: Vec<_> = spec_keys()
        .into_iter()
        .filter(|k| !LIVE_KEYS.contains(k))
        .collect();
    assert!(unknown.is_empty(), "spec keys not in the ini: {unknown:?}");
}

#[test]
fn no_setting_is_listed_twice() {
    let mut keys = spec_keys();
    let before = keys.len();
    keys.sort_unstable();
    keys.dedup();
    assert_eq!(before, keys.len(), "a key appears in two groups");
}

#[test]
fn groups_come_in_order_with_their_bounds() {
    let all = groups();
    let titles: Vec<_> = all.iter().map(|g| g.title).collect();
    assert_eq!(
        titles,
        [
            "時間・セーブ",
            "難易度",
            "レート",
            "プレイヤー・パルの状態",
            "戦闘",
            "拠点・建築",
            "ドロップ",
            "ギルド",
            "ゲームルール",
            "サーバー",
            "ボイスチャット",
            "接続・パスワード",
        ]
    );
    let day = &all[0].specs[0];
    assert_eq!((day.key, day.label), ("DayTimeSpeedRate", "昼の長さ"));
    assert!(matches!(day.kind, Kind::Float { min_tenths: 1, max_tenths: 100 }));
    assert!(day.note.is_some());
    let copy = day.clone();
    assert_eq!((copy.key, copy.label, copy.note), (day.key, day.label, day.note));
    assert!(matches!(copy.kind, Kind::Float { min_tenths: 1, max_tenths: 100 }));
    let difficulty = &all[1].specs[0];
    assert!(matches!(difficulty.kind.clone(), Kind::Choice(o) if o == &["None", "Casual", "Normal", "Hard"]));
    let kinds = |key: &str| {
        groups()
            .into_iter()
            .flat_map(|g| g.specs)
            .find(|s| s.key == key)
            .map(|s| s.kind)
            .unwrap()
    };
    assert!(matches!(kinds("ServerName"), Kind::Text));
    assert!(matches!(kinds("AdminPassword"), Kind::Secret));
    assert!(matches!(kinds("CrossplayPlatforms"), Kind::Raw));
    assert!(matches!(kinds("RCONPort"), Kind::Int { min: 1, max: 65535 }));
    assert!(matches!(kinds("bIsPvP"), Kind::Bool));
}
