use figlet_rs::FIGfont;
use nalufx::config::Config;
use nalufx::errors::{AllocationError, AsciiArtError};
use nalufx::models::claude_dm::{ClaudeChoice, ClaudeMessage, ClaudeResponse};
use nalufx::models::financial_models::{
    CashFlowRequest, CashFlowResponse, ErrorResponse, HistoricalData,
};
use nalufx::models::openai_dm::{OpenAIChoice, OpenAIMessage, OpenAIResponse};
use nalufx::numeric::fixed::Fixed;
use nalufx::numeric::sample::Sample;
use nalufx::utils::amount::{get_float_validation_error_message, validate_positive_float};
use nalufx::utils::ascii::{art_of, font_of, generate_ascii_art, load_standard_font};
use nalufx::utils::date::{moment_of, validate_date, Moment};
use nalufx::utils::signals::{
    analyze_sentiment, get_optimal_actions, get_sentiment_scores, train_reinforcement_learning,
};
use nalufx::utils::ticker::{get_validation_error_message, is_all_alphanumeric, validate_ticker};

#[test]
fn tickers_are_validated() {
    assert_eq!(validate_ticker("AAPL"), Ok("AAPL"));
    assert_eq!(validate_ticker("BRK2"), Ok("BRK2"));
    assert_eq!(validate_ticker("Ünïcödé"), Ok("Ünïcödé"));
    assert_eq!(validate_ticker(""), Err("The ticker symbol cannot be empty."));
    assert_eq!(
        validate_ticker("AAPL$"),
        Err("The ticker symbol must be alphanumeric.")
    );
    assert_eq!(
        validate_ticker("BRK.B"),
        Err("The ticker symbol must be alphanumeric.")
    );
    assert_eq!(validate_ticker(" "), Err("The ticker symbol must be alphanumeric."));
    assert!(is_all_alphanumeric("abc123"));
    assert!(is_all_alphanumeric(""));
    assert!(!is_all_alphanumeric("abc 123"));
}

#[test]
fn ticker_faults_are_explained() {
    assert_eq!(
        get_validation_error_message(""),
        "The ticker symbol cannot be empty."
    );
    assert_eq!(
        get_validation_error_message("AAPL$"),
        "The ticker symbol must be alphanumeric."
    );
    assert_eq!(get_validation_error_message("AAPL"), "Unknown validation error.");
}

#[test]
fn date_test_validate_date() {
    // Test with a valid date
    let valid_date = "2024-01-01";
    assert!(validate_date(valid_date).is_ok());

    // Test with an invalid date
    let invalid_date = "2024-13-01"; // Invalid month
    assert!(validate_date(invalid_date).is_err());

    // Test with an invalid format
    let invalid_format = "01-01-2024";
    assert!(validate_date(invalid_format).is_err());

    // Test with an empty string
    let empty_string = "";
    assert!(validate_date(empty_string).is_err());
}

#[test]
fn test_date_test_validate_date() {
    // Test with a valid date
    let valid_date = "2024-01-01";
    assert!(validate_date(valid_date).is_ok());

    // Test with an invalid date
    let invalid_date = "2024-13-01";
    assert!(validate_date(invalid_date).is_err());

    // Test with an invalid format
    let invalid_format = "01-01-2024";
    assert!(validate_date(invalid_format).is_err());

    // Test with an empty string
    let empty_string = "";
    assert!(validate_date(empty_string).is_err());
}

#[test]
fn test_validate_date_error_message() {
    // Test with an invalid date
    let invalid_date = "2024-13-01";
    assert_eq!(
        validate_date(invalid_date).unwrap_err(),
        "Please enter a valid date in the format YYYY-MM-DD."
    );

    // Test with an invalid format
    let invalid_format = "01-01-2024";
    assert_eq!(
        validate_date(invalid_format).unwrap_err(),
        "Please enter a valid date in the format YYYY-MM-DD."
    );

    // Test with an empty string
    let empty_string = "";
    assert_eq!(
        validate_date(empty_string).unwrap_err(),
        "Please enter a valid date in the format YYYY-MM-DD."
    );
}

#[test]
fn test_validate_date_time_component_error_message() {
    // Test with an invalid date
    let invalid_date = "2024-13-01";
    assert_eq!(
        validate_date(invalid_date).unwrap_err(),
        "Please enter a valid date in the format YYYY-MM-DD."
    );

    // Test with an invalid format
    let invalid_format = "01-01-2024";
    assert_eq!(
        validate_date(invalid_format).unwrap_err(),
        "Please enter a valid date in the format YYYY-MM-DD."
    );

    // Test with an empty string
    let empty_string = "";
    assert_eq!(
        validate_date(empty_string).unwrap_err(),
        "Please enter a valid date in the format YYYY-MM-DD."
    );
}

#[test]
fn test_validate_date_conversion_error_message() {
    // Test with an invalid date
    let invalid_date = "2024-13-01";
    assert_eq!(
        validate_date(invalid_date).unwrap_err(),
        "Please enter a valid date in the format YYYY-MM-DD."
    );

    // Test with an invalid format
    let invalid_format = "01-01-2024";
    assert_eq!(
        validate_date(invalid_format).unwrap_err(),
        "Please enter a valid date in the format YYYY-MM-DD."
    );

    // Test with an empty string
    let empty_string = "";
    assert_eq!(
        validate_date(empty_string).unwrap_err(),
        "Please enter a valid date in the format YYYY-MM-DD."
    );
}

#[test]
fn test_validate_date_multiple_error_messages() {
    // Test with an invalid date
    let invalid_date = "2024-13-01";
    assert_eq!(
        validate_date(invalid_date).unwrap_err(),
        "Please enter a valid date in the format YYYY-MM-DD."
    );

    // Test with an invalid format
    let invalid_format = "01-01-2024";
    assert_eq!(
        validate_date(invalid_format).unwrap_err(),
        "Please enter a valid date in the format YYYY-MM-DD."
    );

    // Test with an empty string
    let empty_string = "";
    assert_eq!(
        validate_date(empty_string).unwrap_err(),
        "Please enter a valid date in the format YYYY-MM-DD."
    );
}

#[test]
fn dates_become_midnight_in_utc() {
    assert_eq!(validate_date("1970-01-01"), Ok(Moment { seconds: 0 }));
    assert_eq!(validate_date("1970-01-02"), Ok(Moment { seconds: 86400 }));
    assert_eq!(validate_date("2024-01-01"), Ok(Moment { seconds: 1704067200 }));
    assert_eq!(validate_date("2024-02-29"), Ok(Moment { seconds: 1709164800 }));
    assert_eq!(validate_date("1969-12-31"), Ok(Moment { seconds: -86400 }));
    assert!(validate_date("2023-02-29").is_err());
    assert!(validate_date("2024-01-01T00:00:00").is_err());
    assert!(validate_date("yesterday").is_err());
}

#[test]
fn outcomes_of_the_calendar_are_mapped() {
    assert_eq!(
        moment_of(true, Some(Moment { seconds: 5 })),
        Ok(Moment { seconds: 5 })
    );
    assert_eq!(
        moment_of(true, None),
        Err("Please enter a valid date in the format YYYY-MM-DD.")
    );
    assert_eq!(moment_of(false, None), Err("Invalid time component in the date."));
    assert_eq!(
        moment_of(false, Some(Moment { seconds: 5 })),
        Err("Invalid time component in the date.")
    );
}

#[test]
fn banners_are_drawn_in_the_standard_font() {
    let art = generate_ascii_art("Hello, world!").unwrap();
    assert!(!art.is_empty());
    let font = FIGfont::standard().unwrap();
    assert_eq!(art, font.convert("Hello, world!").unwrap().to_string());
    let short = generate_ascii_art("Hi").unwrap();
    assert_ne!(short, "Hi");
    assert_eq!(short.lines().count(), 6);
    assert!(short.contains(" _   _ "));
}

#[test]
fn texts_that_cannot_be_drawn_are_refused() {
    assert_eq!(generate_ascii_art(""), Err(AsciiArtError::ConversionError));
    assert_eq!(generate_ascii_art("\u{1F600}"), Err(AsciiArtError::ConversionError));
    assert_eq!(art_of(None), Err(AsciiArtError::ConversionError));
    assert_eq!(art_of(Some(String::from("art"))), Ok(String::from("art")));
    assert!(load_standard_font().is_ok());
}

#[test]
fn ascii_art_errors_are_described() {
    assert_eq!(AsciiArtError::FontLoadError.message(), "Failed to load FIGfont");
    assert_eq!(
        AsciiArtError::ConversionError.message(),
        "Failed to convert text to ASCII art"
    );
}

#[test]
fn allocation_errors_are_described() {
    assert_eq!(
        AllocationError::InputMismatch.message(),
        "Input slices must have the same length"
    );
    assert_eq!(AllocationError::EmptyInput.message(), "Input slices cannot be empty");
    assert_eq!(
        AllocationError::InvalidData.message(),
        "Input data contains missing or invalid values"
    );
    assert_eq!(AllocationError::OutlierData.message(), "Input data contains outliers");
    assert_eq!(
        AllocationError::ClusteringError(String::from("too few rows")).message(),
        "Error during clustering: too few rows"
    );
    assert_eq!(
        AllocationError::ForecastingError(String::from("no model")).message(),
        "Error during time series forecasting: no model"
    );
    assert_eq!(
        AllocationError::SentimentAnalysisError(String::from("offline")).message(),
        "Error during sentiment analysis: offline"
    );
    assert_eq!(
        AllocationError::ReinforcementLearningError(String::from("diverged")).message(),
        "Error during reinforcement learning: diverged"
    );
}

#[test]
fn only_faults_of_the_data_are_fatal() {
    assert!(AllocationError::InputMismatch.is_fatal());
    assert!(AllocationError::EmptyInput.is_fatal());
    assert!(AllocationError::InvalidData.is_fatal());
    assert!(AllocationError::OutlierData.is_fatal());
    assert!(!AllocationError::ClusteringError(String::new()).is_fatal());
    assert!(!AllocationError::ForecastingError(String::new()).is_fatal());
    assert!(!AllocationError::SentimentAnalysisError(String::new()).is_fatal());
    assert!(!AllocationError::ReinforcementLearningError(String::new()).is_fatal());
}

#[test]
fn signals_have_one_score_per_day_between_zero_and_one() {
    let sources: [fn(usize) -> Result<Vec<Fixed>, String>; 4] = [
        get_sentiment_scores,
        get_optimal_actions,
        analyze_sentiment,
        train_reinforcement_learning,
    ];
    for source in sources {
        for num_days in [0usize, 1, 3, 250] {
            let scores = source(num_days).unwrap();
            assert_eq!(scores.len(), num_days);
            for score in &scores {
                assert!(0 <= score.raw() && score.raw() < 4294967296);
            }
        }
    }
    let many = get_sentiment_scores(64).unwrap();
    assert!(many.iter().any(|s| *s != many[0]));
}

#[test]
fn test_cash_flow_request_default() {
    let request = CashFlowRequest {
        historical_data: Vec::<Sample>::new(),
    };
    assert_eq!(request.historical_data, Vec::<Sample>::new());
}

#[test]
fn test_cash_flow_response_default() {
    let response = CashFlowResponse {
        predictions: Vec::<Sample>::new(),
        optimal_allocation: Vec::<Fixed>::new(),
    };
    assert_eq!(response.predictions, Vec::<Sample>::new());
    assert_eq!(response.optimal_allocation, Vec::<Fixed>::new());
}

#[test]
fn test_error_response_default() {
    let error_response = ErrorResponse {
        error: String::new(),
    };
    assert_eq!(error_response.error, "");
}

#[test]
fn test_historical_data_default() {
    let historical_data = HistoricalData {
        ticker: String::new(),
        data: Vec::<Sample>::new(),
    };
    assert_eq!(historical_data.ticker, "");
    assert_eq!(historical_data.data, Vec::<Sample>::new());
}

#[test]
fn replies_hold_their_choices() {
    let reply = OpenAIResponse {
        choices: vec![OpenAIChoice {
            message: OpenAIMessage {
                content: String::from("1.0 2.0 3.0"),
            },
        }],
    };
    assert_eq!(reply.choices.len(), 1);
    assert_eq!(reply.choices[0].message.content, "1.0 2.0 3.0");
    let other = ClaudeResponse {
        choices: vec![ClaudeChoice {
            message: ClaudeMessage {
                content: String::new(),
            },
        }],
    };
    assert!(other.choices[0].message.content.is_empty());
    let config = Config {
        server_addr: String::from("127.0.0.1:8080"),
    };
    assert_eq!(config.clone(), config);
}

#[test]
fn outcomes_of_the_font_parser_are_mapped() {
    let font = font_of(FIGfont::standard()).unwrap();
    assert_eq!(
        font.convert("Hi").unwrap().to_string(),
        FIGfont::standard().unwrap().convert("Hi").unwrap().to_string()
    );
    assert_eq!(
        font_of(Err(String::from("bad header"))).err(),
        Some(AsciiArtError::FontLoadError)
    );
    assert_eq!(
        font_of(FIGfont::from_content("")).err(),
        Some(AsciiArtError::FontLoadError)
    );
}

fn kind(input: &str) -> Option<bool> {
    input.parse::<f64>().ok().map(|value| value > 0.0)
}

#[test]
fn amounts_are_validated() {
    assert_eq!(validate_positive_float(kind("123.45")), Ok(()));
    assert_eq!(
        validate_positive_float(kind("abc")),
        Err("The number is not positive.")
    );
    assert_eq!(
        validate_positive_float(kind("-123.45")),
        Err("The input is not a valid float.")
    );
    assert_eq!(
        validate_positive_float(kind("0")),
        Err("The input is not a valid float.")
    );
}

#[test]
fn faults_of_amounts_are_explained() {
    assert_eq!(
        get_float_validation_error_message(kind("abc")),
        "The input is not a valid float."
    );
    assert_eq!(
        get_float_validation_error_message(kind("-123.45")),
        "The number is not positive."
    );
    assert_eq!(
        get_float_validation_error_message(kind("123.45")),
        "No validation error."
    );
}
