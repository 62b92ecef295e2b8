use neutron_tge::numeric::Dec;
use neutron_tge::vesting::admin::{
    check_extension, check_receive_sender, handle_migrate_xyk_liquidity, plan_liquidity_migration,
    release_for_migration, reschedule_after_migration, withdrawn_liquidity, MigrationPlan,
};
use neutron_tge::vesting::builder::VestingBaseBuilder;
use neutron_tge::vesting::msg::{
    handle_execute_managed_msg, handle_execute_with_managers_msg, handle_query_historical_msg,
    handle_query_managers_msg, ExecuteMsgManaged, ExecuteMsgWithManagers, QueryMsgHistorical,
    QueryMsgWithManagers,
};
use neutron_tge::vesting::pcl;
use neutron_tge::vesting::types::{
    AssetInfo, Extension, Extensions, VestingError, VestingInfo, VestingSchedule,
    VestingSchedulePoint, VestingState,
};

const ONE: u128 = 1_000_000_000_000_000_000;

fn schedule(start: u64, end: u64, end_amount: u128) -> VestingSchedule {
    VestingSchedule {
        start_point: VestingSchedulePoint { time: start, amount: 0 },
        end_point: Some(VestingSchedulePoint { time: end, amount: end_amount }),
    }
}

#[test]
fn extensions_gate_their_messages() {
    let none = Extensions { historical: false, managed: false, with_managers: false };
    let all = Extensions { historical: true, managed: true, with_managers: true };
    let owner = "owner".to_string();
    let add = ExecuteMsgWithManagers::AddVestingManagers { managers: vec!["m".to_string()] };
    assert_eq!(
        handle_execute_with_managers_msg(none, &owner, &owner, vec![], &add).unwrap_err(),
        VestingError::ExtensionNotEnabled(Extension::WithManagers)
    );
    let (managers, added) = handle_execute_with_managers_msg(all, &owner, &owner, vec![], &add).unwrap();
    assert_eq!(managers, vec!["m".to_string()]);
    assert_eq!(added, vec!["m".to_string()]);
    let remove = ExecuteMsgWithManagers::RemoveVestingManagers { managers: vec!["m".to_string()] };
    let (managers, _) = handle_execute_with_managers_msg(all, &owner, &owner, managers, &remove).unwrap();
    assert!(managers.is_empty());
    assert_eq!(
        handle_query_managers_msg(all, vec!["a".to_string()], &QueryMsgWithManagers::VestingManagers {}),
        Ok(vec!["a".to_string()])
    );
    let state = VestingState { total_granted: 100, total_released: 40 };
    assert_eq!(
        handle_query_historical_msg(all, &QueryMsgHistorical::UnclaimedTotalAmountAtHeight { height: 3 }, None, Some(state)),
        Ok(60)
    );
    assert_eq!(
        handle_query_historical_msg(none, &QueryMsgHistorical::UnclaimedTotalAmountAtHeight { height: 3 }, None, Some(state)),
        Err(VestingError::ExtensionNotEnabled(Extension::Historical))
    );
    let info = VestingInfo { schedules: vec![schedule(1, 2, 30)], released_amount: 10 };
    let msg = QueryMsgHistorical::UnclaimedAmountAtHeight { address: "u".to_string(), height: 1 };
    assert_eq!(handle_query_historical_msg(all, &msg, Some(info.clone()), None), Ok(20));
    let remove_accounts = ExecuteMsgManaged::RemoveVestingAccounts {
        vesting_accounts: vec!["u".to_string()],
        clawback_account: "c".to_string(),
    };
    assert_eq!(
        handle_execute_managed_msg(none, &owner, &owner, &remove_accounts, &vec![Some(info.clone())], Some(state))
            .unwrap_err(),
        VestingError::ExtensionNotEnabled(Extension::Managed)
    );
    let out = handle_execute_managed_msg(all, &owner, &owner, &remove_accounts, &vec![Some(info)], Some(state)).unwrap();
    assert_eq!(out.clawbacks, vec![("u".to_string(), 20u128)]);
    assert_eq!(check_extension(all, Extension::Managed), Ok(()));
}

#[test]
fn builder_sets_extensions() {
    let mut builder = VestingBaseBuilder::default();
    builder.managed().historical();
    let (config, managers) = builder.build("o".to_string(), "t".to_string());
    assert_eq!(config.extensions, Extensions { historical: true, managed: true, with_managers: false });
    assert!(managers.is_empty());
    assert_eq!(config.vesting_token, None);

    let mut pcl_builder = pcl::VestingBaseBuilder::default();
    pcl_builder.with_managers(vec!["m1".to_string()]).historical();
    let token = AssetInfo::Token { contract_addr: "lp".to_string() };
    let (pcl_config, pcl_managers) =
        pcl_builder.build("o".to_string(), "t".to_string(), "xyk".to_string(), token.clone());
    assert_eq!(pcl_managers, vec!["m1".to_string()]);
    assert_eq!(pcl_config.xyk_vesting_lp_contract, "xyk");
    assert!(pcl::is_sender_xyk_vesting_lp(&pcl_config, &"xyk".to_string()));
    assert_eq!(
        pcl::check_receive(&pcl_config, &pcl_managers, &"lp".to_string(), pcl::ReceiveHook::RegisterVestingAccounts),
        Err(VestingError::Unauthorized)
    );
    assert_eq!(
        pcl::check_receive(&pcl_config, &pcl_managers, &"xyk".to_string(), pcl::ReceiveHook::MigrateXYKLiquidity),
        Ok(())
    );
}

#[test]
fn liquidity_migration_plan() {
    let info = VestingInfo { schedules: vec![schedule(1, 2, 100), schedule(1, 3, 50)], released_amount: 30 };
    let max = Dec { atomics: ONE / 10 };
    assert_eq!(plan_liquidity_migration(&info, 0, 10, None, max), Ok(None));
    assert_eq!(
        plan_liquidity_migration(&info, 5, 10, None, max),
        Ok(Some(MigrationPlan { dust_transfer: 0, amount: 120, slippage_tolerance: max }))
    );
    assert_eq!(
        plan_liquidity_migration(&info, 5, 500, Some(Dec { atomics: 1 }), max),
        Ok(Some(MigrationPlan { dust_transfer: 120, amount: 0, slippage_tolerance: Dec { atomics: 1 } }))
    );
    assert_eq!(
        plan_liquidity_migration(&info, 5, 10, Some(Dec { atomics: ONE }), max),
        Err(VestingError::MigrationError)
    );
    assert_eq!(
        release_for_migration(Some(VestingState { total_granted: 9, total_released: 1 }), 4),
        Ok(VestingState { total_granted: 9, total_released: 5 })
    );
    assert_eq!(withdrawn_liquidity(10, 15, 3, 3), Ok((5, 0, false)));
    assert_eq!(withdrawn_liquidity(10, 15, 3, 4), Ok((5, 1, true)));
    assert_eq!(withdrawn_liquidity(10, 9, 3, 4), Err(VestingError::Overflow));

    let (received, moved) = reschedule_after_migration(&info, 70, 20).unwrap();
    assert_eq!(received, 50);
    assert_eq!(moved.released_amount, 0);
    assert_eq!(moved.schedules, vec![VestingSchedule {
        start_point: VestingSchedulePoint { time: 1, amount: 0 },
        end_point: Some(VestingSchedulePoint { time: 3, amount: 50 }),
    }]);
    assert_eq!(reschedule_after_migration(&info, 10, 20).unwrap_err(), VestingError::Overflow);
    assert_eq!(
        handle_migrate_xyk_liquidity(&moved, Some(VestingState { total_granted: 5, total_released: 2 })),
        Ok(VestingState { total_granted: 55, total_released: 2 })
    );
}

#[test]
fn base_receive_requires_owner_and_token() {
    let mut builder = VestingBaseBuilder::default();
    builder.historical();
    let (config, _) = builder.build("owner".to_string(), "tim".to_string());
    assert_eq!(
        check_receive_sender(&config, &"owner".to_string(), &"tok".to_string()),
        Err(VestingError::Unauthorized)
    );
    let config = neutron_tge::vesting::admin::set_vesting_token(
        config,
        &"tim".to_string(),
        AssetInfo::Token { contract_addr: "tok".to_string() },
    )
    .unwrap();
    assert_eq!(check_receive_sender(&config, &"owner".to_string(), &"tok".to_string()), Ok(()));
    assert_eq!(
        check_receive_sender(&config, &"x".to_string(), &"tok".to_string()),
        Err(VestingError::Unauthorized)
    );
}
