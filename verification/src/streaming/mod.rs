//! Streaming indicators: units that are fed one bar at a time and keep only
//! bounded state.

pub mod run;
pub mod trend;
pub mod momentum;
pub mod volatility;
pub mod volume;
pub mod others;

pub use trend::{
    SMAStreaming, EMAStreaming, WMAStreaming, AdjustedEMAStreaming, MACDStreaming, ADXStreaming,
    CCIStreaming, DPOStreaming, VortexStreaming, TRIXStreaming, AroonStreaming, PSARStreaming,
    NanAwareSMAStreaming,
};
pub use momentum::{
    RSIStreaming, StochasticStreaming, WilliamsRStreaming, ROCStreaming, PPOStreaming,
    PVOStreaming, MomentumStreaming, UltimateOscillatorStreaming, StochasticRSIStreaming,
    TSIStreaming, AwesomeOscillatorStreaming, KAMAStreaming,
};
pub use volatility::{
    ATRStreaming, BollingerBandsStreaming, KeltnerChannelStreaming, DonchianChannelStreaming,
    RangeStreaming, UlcerIndexStreaming, StandardDeviationStreaming, VarianceStreaming,
    HistoricalVolatilityStreaming,
};
pub use volume::{
    MFIStreaming, AccDistStreaming, OBVStreaming, CMFStreaming, VWAPStreaming, ForceIndexStreaming,
    EOMStreaming, VPTStreaming, NVIStreaming, VWEMAStreaming, VolumeRatioStreaming,
};
pub use others::{
    DailyReturnStreaming, DailyLogReturnStreaming, CumulativeReturnStreaming,
    RollingReturnStreaming, MaxDrawdownStreaming, RollingZScoreStreaming,
    LinearRegressionSlopeStreaming, RollingPercentileStreaming, CalmarRatioStreaming,
    SharpeRatioStreaming, CompoundLogReturnStreaming,
};
