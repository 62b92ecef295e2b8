use neutron_tge::usdc_converter::{
    check_callback_sender, check_received_token, handle_stake_callback, handle_swap_callback,
    ConverterError,
};

#[test]
fn conversion_steps_measure_balances() {
    assert_eq!(check_received_token(&"lp".to_string(), &"lp".to_string()), Ok(()));
    assert_eq!(
        check_received_token(&"other".to_string(), &"lp".to_string()),
        Err(ConverterError::UnsupportedToken)
    );
    assert_eq!(
        check_callback_sender(&"x".to_string(), &"me".to_string()),
        Err(ConverterError::ExternalCallback)
    );
    assert_eq!(handle_swap_callback(10, 25, 3, 8), Ok((15, 5)));
    assert_eq!(handle_swap_callback(10, 5, 3, 8), Err(ConverterError::Overflow));
    assert_eq!(handle_stake_callback(4, 9), Ok(5));
    assert_eq!(handle_stake_callback(9, 4), Err(ConverterError::Overflow));
}
