use blam_tags::area_screen_effect::{AreaScreenEffectFlags};
use blam_tags::biped::{BipedDefinitionFlags, CharacterPhysicsFlags, FlyingPhysicsFlags, BipedLockOnFlags, BipedLeapFlags};
use blam_tags::crate_definition::{CrateFlags};
use blam_tags::damage_effect::{DamageEffectFlags, DamageSideEffect, DamageCategory, DamageFlags, GlobalReverseTransitionFunction, GlobalPeriodicFunction, DamageEffectPlayerResponseType, ScreenFlashType, ScreenFlashPriority};
use blam_tags::device::{DeviceDefinitionFlags, DeviceLightmapFlags};
use blam_tags::device_control::{ControlType, ControlTriggers};
use blam_tags::equipment::{EquipmentFlags, EquipmentSpawnerSpawnType, MultiplayerPowerupFlavor};

#[test]
fn area_screen_effect_options_roundtrip() {
    let all = AreaScreenEffectFlags::variants();
    assert_eq!(all.len(), 4);
    for (k, e) in all.iter().enumerate() {
        assert_eq!(e.value() as usize, k);
        assert_eq!(AreaScreenEffectFlags::from_i64(k as i64), Some(*e));
        assert_eq!(AreaScreenEffectFlags::from_name(e.name()), Some(*e));
        assert_eq!(AreaScreenEffectFlags::from_name(&e.name().to_ascii_uppercase()), Some(*e));
    }
    assert_eq!(AreaScreenEffectFlags::from_i64(4), None);
    assert_eq!(AreaScreenEffectFlags::from_i64(-1), None);
    assert_eq!(AreaScreenEffectFlags::from_name("no such option"), None);
}

#[test]
fn biped_options_roundtrip() {
    let all = BipedDefinitionFlags::variants();
    assert_eq!(all.len(), 13);
    for (k, e) in all.iter().enumerate() {
        assert_eq!(e.value() as usize, k);
        assert_eq!(BipedDefinitionFlags::from_i64(k as i64), Some(*e));
        assert_eq!(BipedDefinitionFlags::from_name(e.name()), Some(*e));
        assert_eq!(BipedDefinitionFlags::from_name(&e.name().to_ascii_uppercase()), Some(*e));
    }
    assert_eq!(BipedDefinitionFlags::from_i64(13), None);
    assert_eq!(BipedDefinitionFlags::from_i64(-1), None);
    assert_eq!(BipedDefinitionFlags::from_name("no such option"), None);
    let all = CharacterPhysicsFlags::variants();
    assert_eq!(all.len(), 8);
    for (k, e) in all.iter().enumerate() {
        assert_eq!(e.value() as usize, k);
        assert_eq!(CharacterPhysicsFlags::from_i64(k as i64), Some(*e));
        assert_eq!(CharacterPhysicsFlags::from_name(e.name()), Some(*e));
        assert_eq!(CharacterPhysicsFlags::from_name(&e.name().to_ascii_uppercase()), Some(*e));
    }
    assert_eq!(CharacterPhysicsFlags::from_i64(8), None);
    assert_eq!(CharacterPhysicsFlags::from_i64(-1), None);
    assert_eq!(CharacterPhysicsFlags::from_name("no such option"), None);
    let all = FlyingPhysicsFlags::variants();
    assert_eq!(all.len(), 1);
    for (k, e) in all.iter().enumerate() {
        assert_eq!(e.value() as usize, k);
        assert_eq!(FlyingPhysicsFlags::from_i64(k as i64), Some(*e));
        assert_eq!(FlyingPhysicsFlags::from_name(e.name()), Some(*e));
        assert_eq!(FlyingPhysicsFlags::from_name(&e.name().to_ascii_uppercase()), Some(*e));
    }
    assert_eq!(FlyingPhysicsFlags::from_i64(1), None);
    assert_eq!(FlyingPhysicsFlags::from_i64(-1), None);
    assert_eq!(FlyingPhysicsFlags::from_name("no such option"), None);
    let all = BipedLockOnFlags::variants();
    assert_eq!(all.len(), 3);
    for (k, e) in all.iter().enumerate() {
        assert_eq!(e.value() as usize, k);
        assert_eq!(BipedLockOnFlags::from_i64(k as i64), Some(*e));
        assert_eq!(BipedLockOnFlags::from_name(e.name()), Some(*e));
        assert_eq!(BipedLockOnFlags::from_name(&e.name().to_ascii_uppercase()), Some(*e));
    }
    assert_eq!(BipedLockOnFlags::from_i64(3), None);
    assert_eq!(BipedLockOnFlags::from_i64(-1), None);
    assert_eq!(BipedLockOnFlags::from_name("no such option"), None);
    let all = BipedLeapFlags::variants();
    assert_eq!(all.len(), 1);
    for (k, e) in all.iter().enumerate() {
        assert_eq!(e.value() as usize, k);
        assert_eq!(BipedLeapFlags::from_i64(k as i64), Some(*e));
        assert_eq!(BipedLeapFlags::from_name(e.name()), Some(*e));
        assert_eq!(BipedLeapFlags::from_name(&e.name().to_ascii_uppercase()), Some(*e));
    }
    assert_eq!(BipedLeapFlags::from_i64(1), None);
    assert_eq!(BipedLeapFlags::from_i64(-1), None);
    assert_eq!(BipedLeapFlags::from_name("no such option"), None);
}

#[test]
fn crate_definition_options_roundtrip() {
    let all = CrateFlags::variants();
    assert_eq!(all.len(), 2);
    for (k, e) in all.iter().enumerate() {
        assert_eq!(e.value() as usize, k);
        assert_eq!(CrateFlags::from_i64(k as i64), Some(*e));
        assert_eq!(CrateFlags::from_name(e.name()), Some(*e));
        assert_eq!(CrateFlags::from_name(&e.name().to_ascii_uppercase()), Some(*e));
    }
    assert_eq!(CrateFlags::from_i64(2), None);
    assert_eq!(CrateFlags::from_i64(-1), None);
    assert_eq!(CrateFlags::from_name("no such option"), None);
}

#[test]
fn damage_effect_options_roundtrip() {
    let all = DamageEffectFlags::variants();
    assert_eq!(all.len(), 2);
    for (k, e) in all.iter().enumerate() {
        assert_eq!(e.value() as usize, k);
        assert_eq!(DamageEffectFlags::from_i64(k as i64), Some(*e));
        assert_eq!(DamageEffectFlags::from_name(e.name()), Some(*e));
        assert_eq!(DamageEffectFlags::from_name(&e.name().to_ascii_uppercase()), Some(*e));
    }
    assert_eq!(DamageEffectFlags::from_i64(2), None);
    assert_eq!(DamageEffectFlags::from_i64(-1), None);
    assert_eq!(DamageEffectFlags::from_name("no such option"), None);
    let all = DamageSideEffect::variants();
    assert_eq!(all.len(), 4);
    for (k, e) in all.iter().enumerate() {
        assert_eq!(e.value() as usize, k);
        assert_eq!(DamageSideEffect::from_i64(k as i64), Some(*e));
        assert_eq!(DamageSideEffect::from_name(e.name()), Some(*e));
        assert_eq!(DamageSideEffect::from_name(&e.name().to_ascii_uppercase()), Some(*e));
    }
    assert_eq!(DamageSideEffect::from_i64(4), None);
    assert_eq!(DamageSideEffect::from_i64(-1), None);
    assert_eq!(DamageSideEffect::from_name("no such option"), None);
    let all = DamageCategory::variants();
    assert_eq!(all.len(), 13);
    for (k, e) in all.iter().enumerate() {
        assert_eq!(e.value() as usize, k);
        assert_eq!(DamageCategory::from_i64(k as i64), Some(*e));
        assert_eq!(DamageCategory::from_name(e.name()), Some(*e));
        assert_eq!(DamageCategory::from_name(&e.name().to_ascii_uppercase()), Some(*e));
    }
    assert_eq!(DamageCategory::from_i64(13), None);
    assert_eq!(DamageCategory::from_i64(-1), None);
    assert_eq!(DamageCategory::from_name("no such option"), None);
    let all = DamageFlags::variants();
    assert_eq!(all.len(), 23);
    for (k, e) in all.iter().enumerate() {
        assert_eq!(e.value() as usize, k);
        assert_eq!(DamageFlags::from_i64(k as i64), Some(*e));
        assert_eq!(DamageFlags::from_name(e.name()), Some(*e));
        assert_eq!(DamageFlags::from_name(&e.name().to_ascii_uppercase()), Some(*e));
    }
    assert_eq!(DamageFlags::from_i64(23), None);
    assert_eq!(DamageFlags::from_i64(-1), None);
    assert_eq!(DamageFlags::from_name("no such option"), None);
    let all = GlobalReverseTransitionFunction::variants();
    assert_eq!(all.len(), 8);
    for (k, e) in all.iter().enumerate() {
        assert_eq!(e.value() as usize, k);
        assert_eq!(GlobalReverseTransitionFunction::from_i64(k as i64), Some(*e));
        assert_eq!(GlobalReverseTransitionFunction::from_name(e.name()), Some(*e));
        assert_eq!(GlobalReverseTransitionFunction::from_name(&e.name().to_ascii_uppercase()), Some(*e));
    }
    assert_eq!(GlobalReverseTransitionFunction::from_i64(8), None);
    assert_eq!(GlobalReverseTransitionFunction::from_i64(-1), None);
    assert_eq!(GlobalReverseTransitionFunction::from_name("no such option"), None);
    let all = GlobalPeriodicFunction::variants();
    assert_eq!(all.len(), 12);
    for (k, e) in all.iter().enumerate() {
        assert_eq!(e.value() as usize, k);
        assert_eq!(GlobalPeriodicFunction::from_i64(k as i64), Some(*e));
        assert_eq!(GlobalPeriodicFunction::from_name(e.name()), Some(*e));
        assert_eq!(GlobalPeriodicFunction::from_name(&e.name().to_ascii_uppercase()), Some(*e));
    }
    assert_eq!(GlobalPeriodicFunction::from_i64(12), None);
    assert_eq!(GlobalPeriodicFunction::from_i64(-1), None);
    assert_eq!(GlobalPeriodicFunction::from_name("no such option"), None);
    let all = DamageEffectPlayerResponseType::variants();
    assert_eq!(all.len(), 3);
    for (k, e) in all.iter().enumerate() {
        assert_eq!(e.value() as usize, k);
        assert_eq!(DamageEffectPlayerResponseType::from_i64(k as i64), Some(*e));
        assert_eq!(DamageEffectPlayerResponseType::from_name(e.name()), Some(*e));
        assert_eq!(DamageEffectPlayerResponseType::from_name(&e.name().to_ascii_uppercase()), Some(*e));
    }
    assert_eq!(DamageEffectPlayerResponseType::from_i64(3), None);
    assert_eq!(DamageEffectPlayerResponseType::from_i64(-1), None);
    assert_eq!(DamageEffectPlayerResponseType::from_name("no such option"), None);
    let all = ScreenFlashType::variants();
    assert_eq!(all.len(), 7);
    for (k, e) in all.iter().enumerate() {
        assert_eq!(e.value() as usize, k);
        assert_eq!(ScreenFlashType::from_i64(k as i64), Some(*e));
        assert_eq!(ScreenFlashType::from_name(e.name()), Some(*e));
        assert_eq!(ScreenFlashType::from_name(&e.name().to_ascii_uppercase()), Some(*e));
    }
    assert_eq!(ScreenFlashType::from_i64(7), None);
    assert_eq!(ScreenFlashType::from_i64(-1), None);
    assert_eq!(ScreenFlashType::from_name("no such option"), None);
    let all = ScreenFlashPriority::variants();
    assert_eq!(all.len(), 3);
    for (k, e) in all.iter().enumerate() {
        assert_eq!(e.value() as usize, k);
        assert_eq!(ScreenFlashPriority::from_i64(k as i64), Some(*e));
        assert_eq!(ScreenFlashPriority::from_name(e.name()), Some(*e));
        assert_eq!(ScreenFlashPriority::from_name(&e.name().to_ascii_uppercase()), Some(*e));
    }
    assert_eq!(ScreenFlashPriority::from_i64(3), None);
    assert_eq!(ScreenFlashPriority::from_i64(-1), None);
    assert_eq!(ScreenFlashPriority::from_name("no such option"), None);
}

#[test]
fn device_options_roundtrip() {
    let all = DeviceDefinitionFlags::variants();
    assert_eq!(all.len(), 3);
    for (k, e) in all.iter().enumerate() {
        assert_eq!(e.value() as usize, k);
        assert_eq!(DeviceDefinitionFlags::from_i64(k as i64), Some(*e));
        assert_eq!(DeviceDefinitionFlags::from_name(e.name()), Some(*e));
        assert_eq!(DeviceDefinitionFlags::from_name(&e.name().to_ascii_uppercase()), Some(*e));
    }
    assert_eq!(DeviceDefinitionFlags::from_i64(3), None);
    assert_eq!(DeviceDefinitionFlags::from_i64(-1), None);
    assert_eq!(DeviceDefinitionFlags::from_name("no such option"), None);
    let all = DeviceLightmapFlags::variants();
    assert_eq!(all.len(), 2);
    for (k, e) in all.iter().enumerate() {
        assert_eq!(e.value() as usize, k);
        assert_eq!(DeviceLightmapFlags::from_i64(k as i64), Some(*e));
        assert_eq!(DeviceLightmapFlags::from_name(e.name()), Some(*e));
        assert_eq!(DeviceLightmapFlags::from_name(&e.name().to_ascii_uppercase()), Some(*e));
    }
    assert_eq!(DeviceLightmapFlags::from_i64(2), None);
    assert_eq!(DeviceLightmapFlags::from_i64(-1), None);
    assert_eq!(DeviceLightmapFlags::from_name("no such option"), None);
}

#[test]
fn device_control_options_roundtrip() {
    let all = ControlType::variants();
    assert_eq!(all.len(), 4);
    for (k, e) in all.iter().enumerate() {
        assert_eq!(e.value() as usize, k);
        assert_eq!(ControlType::from_i64(k as i64), Some(*e));
        assert_eq!(ControlType::from_name(e.name()), Some(*e));
        assert_eq!(ControlType::from_name(&e.name().to_ascii_uppercase()), Some(*e));
    }
    assert_eq!(ControlType::from_i64(4), None);
    assert_eq!(ControlType::from_i64(-1), None);
    assert_eq!(ControlType::from_name("no such option"), None);
    let all = ControlTriggers::variants();
    assert_eq!(all.len(), 2);
    for (k, e) in all.iter().enumerate() {
        assert_eq!(e.value() as usize, k);
        assert_eq!(ControlTriggers::from_i64(k as i64), Some(*e));
        assert_eq!(ControlTriggers::from_name(e.name()), Some(*e));
        assert_eq!(ControlTriggers::from_name(&e.name().to_ascii_uppercase()), Some(*e));
    }
    assert_eq!(ControlTriggers::from_i64(2), None);
    assert_eq!(ControlTriggers::from_i64(-1), None);
    assert_eq!(ControlTriggers::from_name("no such option"), None);
}

#[test]
fn equipment_options_roundtrip() {
    let all = EquipmentFlags::variants();
    assert_eq!(all.len(), 5);
    for (k, e) in all.iter().enumerate() {
        assert_eq!(e.value() as usize, k);
        assert_eq!(EquipmentFlags::from_i64(k as i64), Some(*e));
        assert_eq!(EquipmentFlags::from_name(e.name()), Some(*e));
        assert_eq!(EquipmentFlags::from_name(&e.name().to_ascii_uppercase()), Some(*e));
    }
    assert_eq!(EquipmentFlags::from_i64(5), None);
    assert_eq!(EquipmentFlags::from_i64(-1), None);
    assert_eq!(EquipmentFlags::from_name("no such option"), None);
    let all = EquipmentSpawnerSpawnType::variants();
    assert_eq!(all.len(), 3);
    for (k, e) in all.iter().enumerate() {
        assert_eq!(e.value() as usize, k);
        assert_eq!(EquipmentSpawnerSpawnType::from_i64(k as i64), Some(*e));
        assert_eq!(EquipmentSpawnerSpawnType::from_name(e.name()), Some(*e));
        assert_eq!(EquipmentSpawnerSpawnType::from_name(&e.name().to_ascii_uppercase()), Some(*e));
    }
    assert_eq!(EquipmentSpawnerSpawnType::from_i64(3), None);
    assert_eq!(EquipmentSpawnerSpawnType::from_i64(-1), None);
    assert_eq!(EquipmentSpawnerSpawnType::from_name("no such option"), None);
    let all = MultiplayerPowerupFlavor::variants();
    assert_eq!(all.len(), 3);
    for (k, e) in all.iter().enumerate() {
        assert_eq!(e.value() as usize, k);
        assert_eq!(MultiplayerPowerupFlavor::from_i64(k as i64), Some(*e));
        assert_eq!(MultiplayerPowerupFlavor::from_name(e.name()), Some(*e));
        assert_eq!(MultiplayerPowerupFlavor::from_name(&e.name().to_ascii_uppercase()), Some(*e));
    }
    assert_eq!(MultiplayerPowerupFlavor::from_i64(3), None);
    assert_eq!(MultiplayerPowerupFlavor::from_i64(-1), None);
    assert_eq!(MultiplayerPowerupFlavor::from_name("no such option"), None);
}
#[test]
fn option_names_and_values() {
    assert_eq!(BipedDefinitionFlags::ImmuneToFallingDamage.value(), 2);
    assert_eq!(BipedDefinitionFlags::ImmuneToFallingDamage.name(), "immune to falling damage");
    assert_eq!(
        BipedDefinitionFlags::from_name("Immune To Falling Damage"),
        Some(BipedDefinitionFlags::ImmuneToFallingDamage)
    );
    assert_eq!(CharacterPhysicsFlags::from_name("centered_at_origin"), Some(CharacterPhysicsFlags::CenteredAtOrigin));
    assert_eq!(CrateFlags::from_name("DOES NOT BLOCK aoe"), Some(CrateFlags::DoesNotBlockAoe));
    assert_eq!(CrateFlags::from_name("does not block"), None);
    assert_eq!(DamageCategory::from_i64(0), Some(DamageCategory::NoCategory));
    assert_eq!(DamageCategory::NoCategory.name(), "none");
    assert_eq!(MultiplayerPowerupFlavor::from_i64(2).map(|f| f.value()), Some(2i32));
}

#[test]
fn enum_options_default_to_their_first_variant() {
    assert_eq!(DamageSideEffect::default(), DamageSideEffect::NoSideEffect);
    assert_eq!(DamageCategory::default(), DamageCategory::NoCategory);
    assert_eq!(ScreenFlashType::default(), ScreenFlashType::NoFlash);
    assert_eq!(GlobalReverseTransitionFunction::default().value(), 0);
    assert_eq!(ControlType::default().value(), 0);
    assert_eq!(EquipmentSpawnerSpawnType::default().value(), 0);
    assert_eq!(MultiplayerPowerupFlavor::default().value(), 0);
}
